//! The panel applet's quick controls: what each one runs.
use vstd::prelude::*;
use crate::paths::{join, join_path};
use crate::text::string_from;

verus! {

/// The applet's controls.
#[derive(Clone, Copy, Debug, PartialEq, Eq, Structural)]
pub enum AppletControl {
    LockNow,
    StartScreensaver,
    /// Switch the screensaver service on or off.
    ToggleScreensaver(bool),
    OpenSettings,
}

/// What a control runs: a program found on the path, or one of the
/// bundled screensaver scripts, with its arguments.
#[derive(Debug)]
pub enum AppletCommand {
    Program { program: String, args: Vec<String> },
    Script { name: String, args: Vec<String> },
}

fn one(a: &str) -> (v: Vec<String>)
    ensures
        v@.len() == 1,
        v@[0]@ == a@,
{
    let mut v: Vec<String> = Vec::new();
    v.push(string_from(a));
    v
}

/// The command of a control: `loginctl lock-session`, the fullscreen
/// launcher with `launch`, the screensaver control script with `enable` or
/// `disable`, or `cosmic-order --page screensaver`.
pub fn applet_command(c: AppletControl) -> (r: AppletCommand)
    ensures
        match c {
            AppletControl::LockNow => r matches AppletCommand::Program { program, args }
                && program@ == "loginctl"@ && args@.len() == 1 && args@[0]@ == "lock-session"@,
            AppletControl::StartScreensaver => r matches AppletCommand::Script { name, args }
                && name@ == "launch-fullscreen.sh"@ && args@.len() == 1 && args@[0]@ == "launch"@,
            AppletControl::ToggleScreensaver(on) => r matches AppletCommand::Script { name, args }
                && name@ == "screensaver-ctl.sh"@ && args@.len() == 1 && args@[0]@ == (if on {
                "enable"@
            } else {
                "disable"@
            }),
            AppletControl::OpenSettings => r matches AppletCommand::Program { program, args }
                && program@ == "cosmic-order"@ && args@.len() == 2 && args@[0]@ == "--page"@
                && args@[1]@ == "screensaver"@,
        },
{
    match c {
        AppletControl::LockNow => AppletCommand::Program {
            program: string_from("loginctl"),
            args: one("lock-session"),
        },
        AppletControl::StartScreensaver => AppletCommand::Script {
            name: string_from("launch-fullscreen.sh"),
            args: one("launch"),
        },
        AppletControl::ToggleScreensaver(on) => AppletCommand::Script {
            name: string_from("screensaver-ctl.sh"),
            args: one(if on { "enable" } else { "disable" }),
        },
        AppletControl::OpenSettings => {
            let mut args = one("--page");
            args.push(string_from("screensaver"));
            AppletCommand::Program { program: string_from("cosmic-order"), args }
        },
    }
}

/// Where a bundled script is looked for, in order: the directory named by
/// the override (when set and not empty), then the standard and the local
/// install locations. The first that exists is used; the standard location
/// is the fallback.
pub fn script_candidates(override_dir: Option<String>, name: &str) -> (r: Vec<String>)
    ensures
        r@.len() == (if override_dir matches Some(d) && d@.len() > 0 { 3int } else { 2int }),
        override_dir matches Some(d) && d@.len() > 0 ==> r@[0]@ == join_path(
            override_dir->0@,
            name@,
        ),
        r@[r@.len() - 2]@ == join_path("/usr/share/cosmic-order/screensaver"@, name@),
        r@[r@.len() - 1]@ == join_path("/usr/local/share/cosmic-order/screensaver"@, name@),
{
    let mut r: Vec<String> = Vec::new();
    if let Some(d) = override_dir {
        if !d.as_str().is_empty() {
            r.push(join(d.as_str(), name));
        }
    }
    r.push(join("/usr/share/cosmic-order/screensaver", name));
    r.push(join("/usr/local/share/cosmic-order/screensaver", name));
    r
}

} // verus!
