//! Target windows: what is known of a window, and how a platform brings one
//! to the front.

use vstd::prelude::*;
use crate::keys::Platform;

verus! {

/// What is known of a window on the desktop.
#[derive(Clone, Debug, PartialEq, Eq)]
pub struct WindowInfo {
    pub id: u32,
    pub pid: u32,
    pub title: String,
    pub app_name: String,
    pub width: u32,
    pub height: u32,
    pub is_minimized: bool,
    pub is_maximized: bool,
}

/// How a window is brought to the front.
#[derive(Clone, Copy, Debug, PartialEq, Eq, Structural)]
pub enum Activation {
    /// By the id of the window.
    ByWindowId(u32),
    /// By the id of the process that owns the window.
    ByProcessId(u32),
    /// The platform has no way that is known here.
    Nothing,
}

/// Milliseconds to wait after activating a locked window, before playback.
pub const ACTIVATION_SETTLE_MILLIS: u64 = 500;

/// The way the platform activates a window: Windows by the window, macOS by
/// its process.
pub open spec fn activation_on(id: u32, pid: u32, platform: Platform) -> Activation {
    match platform {
        Platform::Windows => Activation::ByWindowId(id),
        Platform::MacOs => Activation::ByProcessId(pid),
        Platform::Other => Activation::Nothing,
    }
}

/// Decides how to bring `target` to the front on `platform`.
pub fn activate_target(target: &WindowInfo, platform: Platform) -> (activation: Activation)
    ensures
        activation == activation_on(target.id, target.pid, platform),
{
    match platform {
        Platform::Windows => Activation::ByWindowId(target.id),
        Platform::MacOs => Activation::ByProcessId(target.pid),
        Platform::Other => Activation::Nothing,
    }
}

/// Decides what to do about the locked window before playback starts: with
/// a window locked, how to activate it; with none, nothing at all.
pub fn try_activate_locked_window(locked: &Option<WindowInfo>, platform: Platform) -> (activation:
    Option<Activation>)
    ensures
        activation == match *locked {
            Some(window) => Some(activation_on(window.id, window.pid, platform)),
            None => None,
        },
{
    match locked {
        Some(window) => Some(activate_target(window, platform)),
        None => None,
    }
}

} // verus!
