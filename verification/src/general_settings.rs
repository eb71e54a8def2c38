//! Decisions about the shell's general settings: what to change when the
//! settings change, and what the launch agent's property list holds.

use vstd::prelude::*;
use vstd::string::StringExecFns;
use crate::config::GeneralSettings;
use crate::error::AppError;
use crate::text::{text_trim, trimmed};

verus! {

/// The identifier of the status item in the menu bar.
pub const TRAY_ICON_ID: &'static str = "smartime-status";

/// What has to be applied when the settings change. A part that did not
/// change is absent.
#[derive(Clone, Copy, Debug, PartialEq, Eq, Structural)]
pub struct SettingsDelta {
    /// The new value of "hide the dock icon", which also decides whether the
    /// status item is shown.
    pub hide_dock_icon: Option<bool>,
    /// The new value of "start at login".
    pub auto_start: Option<bool>,
}

/// What has to be applied to get from one value of the settings to another.
pub fn settings_delta(previous: &GeneralSettings, next: &GeneralSettings) -> (delta:
    SettingsDelta)
    ensures
        delta.hide_dock_icon == (if previous.hide_dock_icon != next.hide_dock_icon {
            Some(next.hide_dock_icon)
        } else {
            None
        }),
        delta.auto_start == (if previous.auto_start != next.auto_start {
            Some(next.auto_start)
        } else {
            None
        }),
{
    SettingsDelta {
        hide_dock_icon: if previous.hide_dock_icon != next.hide_dock_icon {
            Some(next.hide_dock_icon)
        } else {
            None
        },
        auto_start: if previous.auto_start != next.auto_start {
            Some(next.auto_start)
        } else {
            None
        },
    }
}

/// What has to be applied at startup: every part of the settings.
pub fn startup_settings(settings: &GeneralSettings) -> (delta: SettingsDelta)
    ensures
        delta.hide_dock_icon == Some(settings.hide_dock_icon),
        delta.auto_start == Some(settings.auto_start),
{
    SettingsDelta {
        hide_dock_icon: Some(settings.hide_dock_icon),
        auto_start: Some(settings.auto_start),
    }
}

/// Whether the dock icon is shown. It is, unless it is to be hidden and the
/// main window is known not to be visible or its visibility is unknown.
pub fn dock_should_show(hide_dock_icon: bool, main_window_visible: Option<bool>) -> (show:
    bool)
    ensures
        show == (!hide_dock_icon || main_window_visible == Some(true)),
{
    if hide_dock_icon {
        match main_window_visible {
            Some(visible) => visible,
            None => false,
        }
    } else {
        true
    }
}

/// Whether the status item has to be created before its visibility is set:
/// only when there is none and it is to be shown.
pub fn tray_must_be_created(tray_exists: bool, visible: bool) -> (create: bool)
    ensures
        create == (!tray_exists && visible),
{
    !tray_exists && visible
}

/// The property list up to the label.
pub open spec fn plist_head() -> Seq<char> {
    "<?xml version=\"1.0\" encoding=\"UTF-8\"?>\n<!DOCTYPE plist PUBLIC \"-//Apple//DTD PLIST 1.0//EN\" \"http://www.apple.com/DTDs/PropertyList-1.0.dtd\">\n<plist version=\"1.0\">\n<dict>\n  <key>Label</key>\n  <string>"@
}

/// The property list between the label and the executable's path.
pub open spec fn plist_middle() -> Seq<char> {
    "</string>\n  <key>ProgramArguments</key>\n  <array>\n    <string>"@
}

/// The property list after the executable's path.
pub open spec fn plist_tail() -> Seq<char> {
    "</string>\n  </array>\n  <key>RunAtLoad</key>\n  <true/>\n</dict>\n</plist>\n"@
}

/// The property list of a launch agent.
pub open spec fn launch_agent_plist(label: Seq<char>, exec_path: Seq<char>) -> Seq<char> {
    plist_head() + label + plist_middle() + exec_path + plist_tail()
}

/// The property list of the launch agent that starts the executable at
/// login under the given label.
pub fn build_launch_agent_plist(label: &str, exec_path: &str) -> (plist: String)
    ensures
        plist@ == launch_agent_plist(label@, exec_path@),
{
    let mut plist =
        "<?xml version=\"1.0\" encoding=\"UTF-8\"?>\n<!DOCTYPE plist PUBLIC \"-//Apple//DTD PLIST 1.0//EN\" \"http://www.apple.com/DTDs/PropertyList-1.0.dtd\">\n<plist version=\"1.0\">\n<dict>\n  <key>Label</key>\n  <string>".to_owned();
    plist.append(label);
    plist.append("</string>\n  <key>ProgramArguments</key>\n  <array>\n    <string>");
    plist.append(exec_path);
    plist.append("</string>\n  </array>\n  <key>RunAtLoad</key>\n  <true/>\n</dict>\n</plist>\n");
    plist
}

/// The file name of the launch agent for a label.
pub fn launch_agent_file_name(label: &str) -> (name: String)
    ensures
        name@ == label@ + ".plist"@,
{
    let mut name = label.to_owned();
    name.append(".plist");
    name
}

/// The service target of a user's graphical session.
pub fn launchctl_target(uid: &str) -> (target: String)
    ensures
        target@ == "gui/"@ + uid@,
{
    let mut target = "gui/".to_owned();
    target.append(uid);
    target
}

/// The user id that the `id -u` command printed: its output, trimmed. A
/// command that failed, or printed nothing but white space, gives an error.
pub fn uid_from_output(succeeded: bool, output: &str) -> (uid: Result<String, AppError>)
    ensures
        uid is Ok <==> succeeded && trimmed(output@).len() > 0,
        uid matches Ok(text) ==> text@ == trimmed(output@),
        uid matches Err(e) ==> e matches AppError::Config(m) && m@ == (if !succeeded {
            "Failed to resolve UID via id -u"@
        } else {
            "UID is empty"@
        }),
{
    if !succeeded {
        return Err(AppError::Config("Failed to resolve UID via id -u".to_owned()));
    }
    let uid = text_trim(output).to_owned();
    if uid.as_str().is_empty() {
        return Err(AppError::Config("UID is empty".to_owned()));
    }
    Ok(uid)
}

/// What to do next while a launch agent is being disabled.
#[derive(Clone, Copy, Debug, PartialEq, Eq, Structural)]
pub enum DisableStep {
    /// Ask the service manager to boot the agent out of the user's session.
    Bootout,
    /// Ask the service manager to unload the agent.
    Unload,
    /// The agent is disabled.
    Done,
    /// Both requests failed.
    Failed,
}

/// The next step, given how the requests made so far went: first a boot
/// out; if that fails, an unload; the agent is disabled once one succeeds.
pub fn next_disable_step(bootout_succeeded: Option<bool>, unload_succeeded: Option<bool>) -> (step:
    DisableStep)
    ensures
        step == (match bootout_succeeded {
            None => DisableStep::Bootout,
            Some(true) => DisableStep::Done,
            Some(false) => match unload_succeeded {
                None => DisableStep::Unload,
                Some(true) => DisableStep::Done,
                Some(false) => DisableStep::Failed,
            },
        }),
{
    match bootout_succeeded {
        None => DisableStep::Bootout,
        Some(true) => DisableStep::Done,
        Some(false) => match unload_succeeded {
            None => DisableStep::Unload,
            Some(true) => DisableStep::Done,
            Some(false) => DisableStep::Failed,
        },
    }
}

/// The error for a launch agent that could not be disabled.
pub fn disable_failed() -> (error: AppError)
    ensures
        error matches AppError::Config(m) && m@ == "Failed to disable auto-start via launchctl"@,
{
    AppError::Config("Failed to disable auto-start via launchctl".to_owned())
}

} // verus!
