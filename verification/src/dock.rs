//! The dock itself: what an item opens, when the dock hides, where its
//! window sits, the system Dock's orientation, and the stored item list.
use vstd::prelude::*;

use crate::text::same_text;

verus! {

/// The bundle identifier of Finder, over which the dock stays visible.
pub const FINDER_BUNDLE_ID: &'static str = "com.apple.finder";

/// The dock's own bundle identifier.
pub const WORKSPACE_DOCK_BUNDLE_ID: &'static str = "com.wesleyluu.workspace-dock";

/// The item list used until one is saved.
pub const DEFAULT_DOCK_ITEMS_JSON: &'static str = "[\n  {\"type\":\"app\",\"label\":\"VS Code\",\"appPath\":\"/Applications/Visual Studio Code.app\"},\n  {\"type\":\"app\",\"label\":\"Chrome\",\"appPath\":\"/Applications/Google Chrome.app\"},\n  {\"type\":\"url\",\"label\":\"localhost:3000\",\"url\":\"http://localhost:3000\"}\n]";

/// The pixels between the bottom of the screen and the dock window.
pub const DOCK_BOTTOM_OFFSET: i32 = 6;

/// An item the dock was asked to open.
pub enum DockItemRequest {
    App { app_path: String },
    Url { url: String },
    Folder { folder_path: String },
}

/// Whether the dock hides itself.
pub struct DockVisibilityPayload {
    pub hidden: bool,
}

/// The commands that set the system Dock's orientation and restart it, with
/// what to report when either fails.
pub struct DockOrientationPlan {
    pub defaults_program: String,
    pub defaults_args: Vec<String>,
    pub defaults_failure: String,
    pub restart_program: String,
    pub restart_args: Vec<String>,
    pub restart_failure: String,
}

/// The views of a list of strings.
pub open spec fn string_texts(v: Seq<String>) -> Seq<Seq<char>> {
    v.map_values(|s: String| s@)
}

/// What opening `item` hands to `open`: the app's path, the URL, or the folder's path.
pub open spec fn item_target(item: DockItemRequest) -> Seq<char> {
    match item {
        DockItemRequest::App { app_path } => app_path@,
        DockItemRequest::Url { url } => url@,
        DockItemRequest::Folder { folder_path } => folder_path@,
    }
}

/// The dock hides while an app other than Finder and itself is frontmost.
pub open spec fn hides_for(bundle_id: Option<Seq<char>>) -> bool {
    match bundle_id {
        Some(id) => id != FINDER_BUNDLE_ID@ && id != WORKSPACE_DOCK_BUNDLE_ID@,
        None => false,
    }
}

/// The orientations the system Dock can be given.
pub open spec fn is_dock_orientation(orientation: Seq<char>) -> bool {
    orientation == "left"@ || orientation == "bottom"@ || orientation == "right"@
}

/// Half of `d`, rounded toward zero as Rust's `/` rounds.
pub open spec fn half_toward_zero(d: int) -> int {
    if d >= 0 {
        d / 2
    } else {
        -((-d) / 2)
    }
}

/// What opening `item` hands to the system's `open`.
pub fn dock_item_target(item: &DockItemRequest) -> (r: String)
    ensures
        r@ == item_target(*item),
{
    match item {
        DockItemRequest::App { app_path } => app_path.clone(),
        DockItemRequest::Url { url } => url.clone(),
        DockItemRequest::Folder { folder_path } => folder_path.clone(),
    }
}

/// Why `target` could not be opened, given the system's reason.
pub fn open_failure_message(target: &str, reason: &str) -> (r: String)
    ensures
        r@ == "Failed to open "@ + target@ + ": "@ + reason@,
{
    let mut r = String::from_str("Failed to open ");
    r.append(target);
    r.append(": ");
    r.append(reason);
    r
}

/// Whether the dock hides while the app with `bundle_id` is frontmost: it
/// does unless that is Finder or the dock itself, or no app is frontmost.
pub fn should_hide_dock_for_bundle_id(bundle_id: Option<&str>) -> (r: bool)
    ensures
        r == hides_for(
            match bundle_id {
                Some(id) => Some(id@),
                None => None,
            },
        ),
{
    match bundle_id {
        Some(id) => !same_text(id, FINDER_BUNDLE_ID) && !same_text(id, WORKSPACE_DOCK_BUNDLE_ID),
        None => false,
    }
}

/// The dock's visibility while the app with `frontmost_bundle_id` is frontmost.
pub fn current_dock_visibility(frontmost_bundle_id: Option<&str>) -> (r: DockVisibilityPayload)
    ensures
        r.hidden == hides_for(
            match frontmost_bundle_id {
                Some(id) => Some(id@),
                None => None,
            },
        ),
{
    DockVisibilityPayload { hidden: should_hide_dock_for_bundle_id(frontmost_bundle_id) }
}

/// The commands that give the system Dock `orientation` and restart it; an
/// error for an orientation the Dock does not have.
pub fn set_macos_dock_orientation(orientation: &str) -> (r: Result<DockOrientationPlan, String>)
    ensures
        !is_dock_orientation(orientation@) ==> (r matches Err(m) && m@
            == "Unsupported Dock orientation: "@ + orientation@),
        is_dock_orientation(orientation@) ==> (r matches Ok(plan) && {
            &&& plan.defaults_program@ == "defaults"@
            &&& string_texts(plan.defaults_args@) == seq![
                "write"@,
                "com.apple.dock"@,
                "orientation"@,
                "-string"@,
                orientation@,
            ]
            &&& plan.defaults_failure@ == "defaults failed while setting Dock orientation to "@
                + orientation@
            &&& plan.restart_program@ == "killall"@
            &&& string_texts(plan.restart_args@) == seq!["Dock"@]
            &&& plan.restart_failure@ == "killall Dock failed while restarting macOS Dock"@
        }),
{
    if !(same_text(orientation, "left") || same_text(orientation, "bottom") || same_text(
        orientation,
        "right",
    )) {
        let mut message = String::from_str("Unsupported Dock orientation: ");
        message.append(orientation);
        return Err(message);
    }
    let mut defaults_args: Vec<String> = Vec::new();
    defaults_args.push(String::from_str("write"));
    defaults_args.push(String::from_str("com.apple.dock"));
    defaults_args.push(String::from_str("orientation"));
    defaults_args.push(String::from_str("-string"));
    defaults_args.push(orientation.to_owned());
    let mut defaults_failure = String::from_str(
        "defaults failed while setting Dock orientation to ",
    );
    defaults_failure.append(orientation);
    let mut restart_args: Vec<String> = Vec::new();
    restart_args.push(String::from_str("Dock"));
    let plan = DockOrientationPlan {
        defaults_program: String::from_str("defaults"),
        defaults_args,
        defaults_failure,
        restart_program: String::from_str("killall"),
        restart_args,
        restart_failure: String::from_str("killall Dock failed while restarting macOS Dock"),
    };
    assert(string_texts(plan.defaults_args@) =~= seq![
        "write"@,
        "com.apple.dock"@,
        "orientation"@,
        "-string"@,
        orientation@,
    ]);
    assert(string_texts(plan.restart_args@) =~= seq!["Dock"@]);
    Ok(plan)
}

/// What came of the last command while changing the system Dock's orientation.
pub enum OrientationEvent {
    /// The change was asked for, and its plan made.
    Started,
    /// `defaults` ran (whether it reported success), or why it could not be started.
    DefaultsRan(Result<bool, String>),
    /// The Dock restart ran (whether it reported success), or why it could not be started.
    RestartRan(Result<bool, String>),
}

/// What to do next while changing the system Dock's orientation.
pub enum OrientationAction {
    /// Run the plan's `defaults` command and report `DefaultsRan`.
    RunDefaults,
    /// Run the plan's restart command and report `RestartRan`.
    RunRestart,
    /// The change is over: done, or why not.
    Finish(Result<(), String>),
}

/// One step of carrying out an orientation plan: `defaults` first; the Dock
/// is restarted only after `defaults` succeeded; the change succeeds only
/// when the restart succeeds too. A command that fails or cannot be started
/// ends the change with its reason.
pub fn dock_orientation_step(plan: &DockOrientationPlan, event: OrientationEvent) -> (r:
    OrientationAction)
    ensures
        match event {
            OrientationEvent::Started => r is RunDefaults,
            OrientationEvent::DefaultsRan(Err(e)) => r matches OrientationAction::Finish(Err(m)) && m@
                == "Failed to update macOS Dock orientation: "@ + e@,
            OrientationEvent::DefaultsRan(Ok(succeeded)) => if succeeded {
                r is RunRestart
            } else {
                r matches OrientationAction::Finish(Err(m)) && m@ == plan.defaults_failure@
            },
            OrientationEvent::RestartRan(Err(e)) => r matches OrientationAction::Finish(Err(m)) && m@
                == "Failed to restart macOS Dock: "@ + e@,
            OrientationEvent::RestartRan(Ok(succeeded)) => if succeeded {
                r == OrientationAction::Finish(Ok(()))
            } else {
                r matches OrientationAction::Finish(Err(m)) && m@ == plan.restart_failure@
            },
        },
{
    match event {
        OrientationEvent::Started => OrientationAction::RunDefaults,
        OrientationEvent::DefaultsRan(Err(e)) => {
            let mut message = String::from_str("Failed to update macOS Dock orientation: ");
            message.append(&e);
            OrientationAction::Finish(Err(message))
        },
        OrientationEvent::DefaultsRan(Ok(succeeded)) => {
            if succeeded {
                OrientationAction::RunRestart
            } else {
                OrientationAction::Finish(Err(plan.defaults_failure.clone()))
            }
        },
        OrientationEvent::RestartRan(Err(e)) => {
            let mut message = String::from_str("Failed to restart macOS Dock: ");
            message.append(&e);
            OrientationAction::Finish(Err(message))
        },
        OrientationEvent::RestartRan(Ok(succeeded)) => {
            if succeeded {
                OrientationAction::Finish(Ok(()))
            } else {
                OrientationAction::Finish(Err(plan.restart_failure.clone()))
            }
        },
    }
}

/// The exit status after restoring the system Dock on a signal: 130 for an
/// interrupt, 143 for a termination request.
pub fn dock_restore_exit_code(interrupted: bool) -> (r: i32)
    ensures
        r == (if interrupted {
            130i32
        } else {
            143i32
        }),
{
    if interrupted {
        130
    } else {
        143
    }
}

/// Where the dock window goes on a monitor at (`monitor_x`, `monitor_y`) of
/// `monitor_width` by `monitor_height` pixels: centred horizontally, its
/// bottom edge `DOCK_BOTTOM_OFFSET` pixels above the monitor's. Sizes are
/// read as `i32` with `as`, and the arithmetic must stay within `i32`.
pub fn dock_window_position(
    monitor_x: i32,
    monitor_y: i32,
    monitor_width: u32,
    monitor_height: u32,
    window_width: u32,
    window_height: u32,
) -> (r: (i32, i32))
    requires
        i32::MIN <= (monitor_width as i32) - (window_width as i32) <= i32::MAX,
        i32::MIN <= monitor_x + half_toward_zero((monitor_width as i32) - (window_width as i32))
            <= i32::MAX,
        i32::MIN <= monitor_y + (monitor_height as i32) <= i32::MAX,
        i32::MIN <= monitor_y + (monitor_height as i32) - (window_height as i32) <= i32::MAX,
        i32::MIN <= monitor_y + (monitor_height as i32) - (window_height as i32)
            - DOCK_BOTTOM_OFFSET <= i32::MAX,
    ensures
        r.0 == monitor_x + half_toward_zero((monitor_width as i32) - (window_width as i32)),
        r.1 == monitor_y + (monitor_height as i32) - (window_height as i32) - DOCK_BOTTOM_OFFSET,
{
    let mw = monitor_width as i32;
    let ww = window_width as i32;
    let mh = monitor_height as i32;
    let wh = window_height as i32;
    let d = mw - ww;
    let half: i32 = if d >= 0 {
        d / 2
    } else {
        let magnitude: i64 = -(d as i64);
        let h: i64 = magnitude / 2;
        -(h as i32)
    };
    let x = monitor_x + half;
    let y = monitor_y + mh - wh - DOCK_BOTTOM_OFFSET;
    (x, y)
}

/// The saved item list, or the default list when none is saved.
pub fn dock_items_json(saved: Option<String>) -> (r: String)
    ensures
        r@ == match saved {
            Some(json) => json@,
            None => DEFAULT_DOCK_ITEMS_JSON@,
        },
{
    match saved {
        Some(json) => json,
        None => String::from_str(DEFAULT_DOCK_ITEMS_JSON),
    }
}

} // verus!
