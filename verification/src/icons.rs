//! App icons: when icon data is usable, where converted icons are cached and
//! under which key, how a cached icon is found again, the data URL an icon
//! is handed out as, and the script that exports an icon through NSWorkspace.
use vstd::prelude::*;

use crate::bundle::{safe_file_name, safe_file_name_text};
use crate::codec::{
    base64_padded_len, base64_standard, base64_url_safe_no_pad, encode_base64_standard,
    encode_base64_url_safe_no_pad, encode_json_string, json_error_text, json_string_literal,
    sha256, sha256_digest,
};
use crate::paths::{join_path, path_components, path_join, same_path};
use crate::text::{decimal_string, decimal_text, trim, trim_text};
use vstd::utf8::encode_utf8;

verus! {

/// Icon data shorter than this is a placeholder, not an icon.
pub const MIN_CACHED_ICON_BYTES: usize = 2048;

/// Icon data of `len` bytes is long enough to be a real icon.
pub open spec fn icon_is_usable(len: nat) -> bool {
    len >= MIN_CACHED_ICON_BYTES
}

/// The data URL under which PNG bytes are handed to the web view.
pub open spec fn png_data_url_text(bytes: Seq<u8>) -> Seq<char> {
    "data:image/png;base64,"@ + base64_standard(bytes)
}

/// The key under which the icon of the app at `app_path` is cached: `v2-`
/// and the unpadded URL-safe Base64 of the SHA-256 of the path's UTF-8 bytes.
pub open spec fn icon_cache_key_text(app_path: Seq<char>) -> Seq<char> {
    "v2-"@ + base64_url_safe_no_pad(sha256_digest(encode_utf8(app_path)))
}

/// The directory converted icons are cached in.
pub open spec fn icon_cache_dir_text(temp_dir: Seq<char>) -> Seq<char> {
    path_join(temp_dir, "workspace-dock-icons"@)
}

/// The cache file of the icon of the app at `app_path`.
pub open spec fn icon_cache_path_text(temp_dir: Seq<char>, app_path: Seq<char>) -> Seq<char> {
    path_join(icon_cache_dir_text(temp_dir), icon_cache_key_text(app_path) + ".png"@)
}

/// The cache file an earlier release kept the icon of the app at `app_path` in.
pub open spec fn legacy_icon_cache_path_text(temp_dir: Seq<char>, app_path: Seq<char>) -> Seq<
    char,
> {
    path_join(icon_cache_dir_text(temp_dir), safe_file_name_text(app_path) + ".png"@)
}

/// The script that has NSWorkspace write the icon of the app whose path is
/// the JSON literal `app_json` as a PNG file to the JSON literal `output_json`.
pub open spec fn icon_export_script_text(app_json: Seq<char>, output_json: Seq<char>) -> Seq<
    char,
> {
    ICON_SCRIPT_HEAD@ + app_json + ICON_SCRIPT_MIDDLE@ + output_json + ICON_SCRIPT_TAIL@
}

/// The script up to the app path.
pub const ICON_SCRIPT_HEAD: &'static str =
    "\nObjC.import(\"AppKit\");\nObjC.import(\"Foundation\");\n\nvar appPath = ";

/// The script between the app path and the output path.
pub const ICON_SCRIPT_MIDDLE: &'static str = ";\nvar outputPath = ";

/// The script after the output path.
pub const ICON_SCRIPT_TAIL: &'static str = ";\nvar icon = $.NSWorkspace.sharedWorkspace.iconForFile(appPath);\nicon.setSize({ width: 256, height: 256 });\nvar tiffData = icon.TIFFRepresentation;\nvar bitmapRep = $.NSBitmapImageRep.imageRepWithData(tiffData);\nvar pngData = bitmapRep.representationUsingTypeProperties(4, $({}));\nif (!pngData || !pngData.writeToFileAtomically(outputPath, true)) {\n  throw new Error(\"Failed to write PNG icon\");\n}\n";

/// Where an icon came from, for the message that rejects it.
pub enum IconSource {
    /// Exported by NSWorkspace.
    Workspace,
    /// Converted from the bundle's `.icns` file.
    BundleConversion,
}

/// What the icon caches hold for an app.
pub enum CachedIcon {
    /// The current cache file holds a usable icon.
    Cached(Vec<u8>),
    /// Only the earlier release's cache file holds a usable icon; it is to be
    /// copied to the current cache file.
    Migrated(Vec<u8>),
    /// No usable cached icon.
    Missing,
}

/// `Ok` for icon data of at least `MIN_CACHED_ICON_BYTES` bytes; otherwise an
/// error that gives the size.
pub fn validate_icon_bytes(icon_bytes: &[u8]) -> (r: Result<(), String>)
    ensures
        r is Ok <==> icon_is_usable(icon_bytes@.len()),
        r matches Err(message) ==> message@ == "icon data is too small ("@ + decimal_text(
            icon_bytes@.len(),
        ) + " bytes)"@,
{
    if icon_bytes.len() < MIN_CACHED_ICON_BYTES {
        let mut message = String::from_str("icon data is too small (");
        let size = decimal_string(icon_bytes.len());
        message.append(&size);
        message.append(" bytes)");
        return Err(message);
    }
    Ok(())
}

/// `icon_bytes` if usable; otherwise why not, naming where they came from.
pub fn usable_icon(icon_bytes: Vec<u8>, source: IconSource) -> (r: Result<Vec<u8>, String>)
    ensures
        r is Ok <==> icon_is_usable(icon_bytes@.len()),
        r matches Ok(bytes) ==> bytes@ == icon_bytes@,
        r matches Err(message) ==> message@ == match source {
            IconSource::Workspace => "NSWorkspace app icon is not usable: "@,
            IconSource::BundleConversion => "Converted app icon is not usable: "@,
        } + "icon data is too small ("@ + decimal_text(icon_bytes@.len()) + " bytes)"@,
{
    match validate_icon_bytes(icon_bytes.as_slice()) {
        Ok(()) => Ok(icon_bytes),
        Err(reason) => {
            let mut message = match source {
                IconSource::Workspace => String::from_str("NSWorkspace app icon is not usable: "),
                IconSource::BundleConversion => String::from_str(
                    "Converted app icon is not usable: ",
                ),
            };
            message.append(&reason);
            Err(message)
        },
    }
}

/// PNG bytes as a `data:image/png;base64,` URL.
pub fn png_bytes_to_data_url(icon_bytes: &[u8]) -> (r: String)
    requires
        base64_padded_len(icon_bytes@.len() as int) <= usize::MAX,
    ensures
        r@ == png_data_url_text(icon_bytes@),
{
    let encoded = encode_base64_standard(icon_bytes);
    let mut r = String::from_str("data:image/png;base64,");
    r.append(&encoded);
    r
}

/// The key under which the icon of the app at `app_path` is cached.
pub fn app_icon_cache_key(app_path: &str) -> (r: String)
    ensures
        r@ == icon_cache_key_text(app_path@),
{
    let digest = sha256(app_path.as_bytes());
    let encoded = encode_base64_url_safe_no_pad(digest.as_slice());
    let mut r = String::from_str("v2-");
    r.append(&encoded);
    r
}

/// The directory converted icons are cached in.
pub fn app_icon_cache_dir(temp_dir: &str) -> (r: String)
    ensures
        r@ == icon_cache_dir_text(temp_dir@),
{
    join_path(temp_dir, "workspace-dock-icons")
}

/// The cache file of the icon of the app at `app_path`.
pub fn app_icon_cache_path(temp_dir: &str, app_path: &str) -> (r: String)
    ensures
        r@ == icon_cache_path_text(temp_dir@, app_path@),
{
    let dir = app_icon_cache_dir(temp_dir);
    let mut file_name = app_icon_cache_key(app_path);
    file_name.append(".png");
    join_path(&dir, &file_name)
}

/// The cache file an earlier release kept the icon of the app at `app_path` in.
pub fn legacy_app_icon_cache_path(temp_dir: &str, app_path: &str) -> (r: String)
    ensures
        r@ == legacy_icon_cache_path_text(temp_dir@, app_path@),
{
    let dir = app_icon_cache_dir(temp_dir);
    let mut file_name = safe_file_name(app_path);
    file_name.append(".png");
    join_path(&dir, &file_name)
}

/// Decides what the icon caches hold, given what the current cache file
/// (`cached`) and, only when that could not be read, the earlier release's
/// cache file (`legacy`) held. A current file that was read is never passed
/// over for the earlier one; the earlier file is not consulted when it is the
/// same path as the current one.
pub fn read_cached_app_icon(
    cache_path: &str,
    legacy_path: &str,
    cached: Option<Vec<u8>>,
    legacy: Option<Vec<u8>>,
) -> (r: CachedIcon)
    ensures
        match cached {
            Some(bytes) => if icon_is_usable(bytes@.len()) {
                r == CachedIcon::Cached(bytes)
            } else {
                r is Missing
            },
            None => if path_components(legacy_path@) == path_components(cache_path@) {
                r is Missing
            } else {
                match legacy {
                    Some(bytes) => if icon_is_usable(bytes@.len()) {
                        r == CachedIcon::Migrated(bytes)
                    } else {
                        r is Missing
                    },
                    None => r is Missing,
                }
            },
        },
{
    match cached {
        Some(bytes) => {
            if bytes.len() >= MIN_CACHED_ICON_BYTES {
                CachedIcon::Cached(bytes)
            } else {
                CachedIcon::Missing
            }
        },
        None => {
            if same_path(legacy_path, cache_path) {
                return CachedIcon::Missing;
            }
            match legacy {
                Some(bytes) => {
                    if bytes.len() >= MIN_CACHED_ICON_BYTES {
                        CachedIcon::Migrated(bytes)
                    } else {
                        CachedIcon::Missing
                    }
                },
                None => CachedIcon::Missing,
            }
        },
    }
}

/// The script that exports the icon of the app at `app_path` as a PNG file
/// at `output_path`, with both paths written as JSON string literals. Encoding
/// a string as JSON cannot fail, so the script is always built; the error
/// messages are kept for the form of the result.
pub fn nsworkspace_icon_script(app_path: &str, output_path: &str) -> (r: Result<String, String>)
    ensures
        r matches Ok(script) && script@ == icon_export_script_text(
            json_string_literal(app_path@),
            json_string_literal(output_path@),
        ),
{
    let app_json = match encode_json_string(app_path) {
        Ok(json) => json,
        Err(error) => {
            let mut message = String::from_str("Failed to encode app path: ");
            let detail = json_error_text(&error);
            message.append(&detail);
            return Err(message);
        },
    };
    let output_json = match encode_json_string(output_path) {
        Ok(json) => json,
        Err(error) => {
            let mut message = String::from_str("Failed to encode output path: ");
            let detail = json_error_text(&error);
            message.append(&detail);
            return Err(message);
        },
    };
    let mut script = String::from_str(ICON_SCRIPT_HEAD);
    script.append(&app_json);
    script.append(ICON_SCRIPT_MIDDLE);
    script.append(&output_json);
    script.append(ICON_SCRIPT_TAIL);
    Ok(script)
}

/// Why neither NSWorkspace nor the bundle's own icon gave an icon.
pub fn icon_fallback_failure_message(workspace_error: &str, bundle_error: &str) -> (r: String)
    ensures
        r@ == "NSWorkspace icon failed: "@ + workspace_error@ + "; bundle icon fallback failed: "@
            + bundle_error@,
{
    let mut r = String::from_str("NSWorkspace icon failed: ");
    r.append(workspace_error);
    r.append("; bundle icon fallback failed: ");
    r.append(bundle_error);
    r
}

/// Why the bundle's declared icon file could not be used: it is missing.
pub fn missing_bundle_icon_message(icon_path: &str) -> (r: String)
    ensures
        r@ == "App icon not found at "@ + icon_path@,
{
    let mut r = String::from_str("App icon not found at ");
    r.append(icon_path);
    r
}

/// Why `sips` failed to convert the icon at `icon_path`, with its trimmed
/// error output.
pub fn icon_conversion_failure_message(icon_path: &str, stderr: &str) -> (r: String)
    ensures
        r@ == "Failed to convert "@ + icon_path@ + ": "@ + trim(stderr@),
{
    let mut r = String::from_str("Failed to convert ");
    r.append(icon_path);
    r.append(": ");
    let detail = trim_text(stderr);
    r.append(&detail);
    r
}

} // verus!
