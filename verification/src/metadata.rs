//! App metadata as `plutil` and `mdls` report it: cleaning a reported value,
//! and choosing an app's name, bundle identifier and icon file from what
//! was reported.
use vstd::prelude::*;

use crate::bundle::{fallback_app_name, fallback_name_text};
use crate::text::{chars_of, same_text, string_from_chars, trim, trim_chars};

verus! {

/// The `Info.plist` key of a bundle's identifier.
pub const BUNDLE_IDENTIFIER_KEY: &'static str = "CFBundleIdentifier";

/// The `Info.plist` key of a bundle's display name.
pub const BUNDLE_DISPLAY_NAME_KEY: &'static str = "CFBundleDisplayName";

/// The `Info.plist` key of a bundle's short name.
pub const BUNDLE_NAME_KEY: &'static str = "CFBundleName";

/// The `Info.plist` key of a bundle's icon file.
pub const BUNDLE_ICON_FILE_KEY: &'static str = "CFBundleIconFile";

/// A reported metadata value, trimmed; none when it is empty or `(null)`.
pub open spec fn metadata_value(reported: Seq<char>) -> Option<Seq<char>> {
    let value = trim(reported);
    if value.len() == 0 || value == "(null)"@ {
        None
    } else {
        Some(value)
    }
}

/// The value a metadata tool reported: none unless it succeeded.
pub open spec fn tool_metadata_value(succeeded: bool, stdout: Seq<char>) -> Option<Seq<char>> {
    if succeeded {
        metadata_value(stdout)
    } else {
        None
    }
}

/// The view of an optional string.
pub open spec fn text_option(value: Option<String>) -> Option<Seq<char>> {
    match value {
        Some(s) => Some(s@),
        None => None,
    }
}

/// The name shown for the app at `app_path`: the first name reported, in the
/// order Spotlight, bundle display name, bundle name; else the fallback name.
pub open spec fn display_name_text(
    app_path: Seq<char>,
    spotlight: Option<Seq<char>>,
    bundle_display: Option<Seq<char>>,
    bundle_name: Option<Seq<char>>,
) -> Seq<char> {
    match spotlight {
        Some(name) => name,
        None => match bundle_display {
            Some(name) => name,
            None => match bundle_name {
                Some(name) => name,
                None => fallback_name_text(app_path),
            },
        },
    }
}

/// A reported metadata value, trimmed; `None` when it is empty or `(null)`.
pub fn normalize_metadata_value(value: &str) -> (r: Option<String>)
    ensures
        text_option(r) == metadata_value(value@),
{
    let trimmed = trim_chars(&chars_of(value));
    let text = string_from_chars(&trimmed);
    if trimmed.len() == 0 || same_text(&text, "(null)") {
        None
    } else {
        Some(text)
    }
}

/// The value a metadata tool (`plutil`, `mdls`) reported on standard output;
/// `None` when the tool failed.
pub fn metadata_from_tool_output(succeeded: bool, stdout: &str) -> (r: Option<String>)
    ensures
        text_option(r) == tool_metadata_value(succeeded, stdout@),
{
    if !succeeded {
        return None;
    }
    normalize_metadata_value(stdout)
}

/// The bundle identifier `plutil` reported for `CFBundleIdentifier`.
pub fn read_bundle_id(plutil_succeeded: bool, plutil_stdout: &str) -> (r: Option<String>)
    ensures
        text_option(r) == tool_metadata_value(plutil_succeeded, plutil_stdout@),
{
    metadata_from_tool_output(plutil_succeeded, plutil_stdout)
}

/// The icon file a bundle declares, given the `CFBundleIconFile` value read
/// from `info_plist`; an error naming `info_plist` when there is none.
pub fn read_bundle_icon_name(icon_file: Option<String>, info_plist: &str) -> (r: Result<
    String,
    String,
>)
    ensures
        match icon_file {
            None => r matches Err(m) && m@ == "Failed to read icon metadata from "@ + info_plist@,
            Some(name) => if name@.len() == 0 {
                r matches Err(m) && m@ == "No app icon declared in "@ + info_plist@
            } else {
                r matches Ok(n) && n@ == name@
            },
        },
{
    match icon_file {
        None => {
            let mut message = String::from_str("Failed to read icon metadata from ");
            message.append(info_plist);
            Err(message)
        },
        Some(name) => {
            if name.as_str().is_empty() {
                let mut message = String::from_str("No app icon declared in ");
                message.append(info_plist);
                Err(message)
            } else {
                Ok(name)
            }
        },
    }
}

/// The name shown for the app at `app_path`: what Spotlight reports, else the
/// bundle's display name, else its short name, else the fallback name. A
/// source after the first one present is never consulted, so a caller may
/// pass `None` for it.
pub fn read_app_display_name(
    app_path: &str,
    spotlight: Option<String>,
    bundle_display: Option<String>,
    bundle_name: Option<String>,
) -> (r: String)
    ensures
        r@ == display_name_text(
            app_path@,
            text_option(spotlight),
            text_option(bundle_display),
            text_option(bundle_name),
        ),
        spotlight matches Some(name) ==> r@ == name@,
        spotlight is None ==> (bundle_display matches Some(name) ==> r@ == name@),
        spotlight is None && bundle_display is None ==> (bundle_name matches Some(name) ==> r@
            == name@),
        spotlight is None && bundle_display is None && bundle_name is None ==> r@
            == fallback_name_text(app_path@),
{
    match spotlight {
        Some(name) => name,
        None => match bundle_display {
            Some(name) => name,
            None => match bundle_name {
                Some(name) => name,
                None => fallback_app_name(app_path),
            },
        },
    }
}

} // verus!
