//! The system tray: its configuration, errors, icon and info message.
use vstd::prelude::*;

use crate::ipc::{DaemonHealth, DaemonHealthView};
use crate::text::{decimal, push_decimal};

verus! {

/// Configuration for the system tray.
pub struct TrayConfig {
    pub daemon_address: String,
}

#[derive(Debug)]
pub enum TrayError {
    Creation(String),
    Menu(String),
    Platform(String),
}

impl TrayError {
    pub open spec fn spec_message(&self) -> Seq<char> {
        match self {
            TrayError::Creation(m) => "failed to create tray: "@ + m@,
            TrayError::Menu(m) => "failed to create menu: "@ + m@,
            TrayError::Platform(m) => "platform error: "@ + m@,
        }
    }

    /// The error's human-readable text.
    pub fn message(&self) -> (s: String)
        ensures
            s@ == self.spec_message(),
    {
        let (prefix, m) = match self {
            TrayError::Creation(m) => ("failed to create tray: ", m),
            TrayError::Menu(m) => ("failed to create menu: ", m),
            TrayError::Platform(m) => ("platform error: ", m),
        };
        let mut s = String::from_str(prefix);
        s.append(m.as_str());
        s
    }
}

/// Side of the square tray icon, in pixels.
pub const ICON_SIZE: u32 = 32;

/// The channel values of each icon pixel: red, green, blue, alpha.
pub open spec fn icon_byte(channel: int) -> u8 {
    if channel == 0 {
        64
    } else if channel == 1 {
        128
    } else {
        255
    }
}

/// The tray icon: 32x32 pixels of opaque blue, as RGBA bytes.
pub fn icon_rgba() -> (v: Vec<u8>)
    ensures
        v@.len() == 4096,
        forall|k: int| 0 <= k < 4096 ==> #[trigger] v@[k] == icon_byte(k % 4),
{
    let mut v: Vec<u8> = Vec::new();
    let mut i: usize = 0;
    while i < 1024
        invariant
            i <= 1024,
            v@.len() == 4 * i,
            forall|k: int| 0 <= k < v@.len() ==> #[trigger] v@[k] == icon_byte(k % 4),
        decreases 1024 - i,
    {
        v.push(64u8);
        v.push(128u8);
        v.push(255u8);
        v.push(255u8);
        proof {
            assert forall|k: int| 0 <= k < v@.len() implies #[trigger] v@[k] == icon_byte(k % 4) by {
                if k >= 4 * i {
                    assert(k % 4 == k - 4 * i);
                }
            }
        }
        i = i + 1;
    }
    v
}

pub open spec fn spec_tray_info(h: DaemonHealthView) -> Seq<char> {
    "Gitz Daemon Status\n------------------\nRepositories: "@ + decimal(h.repo_count as nat)
        + "\nPending Jobs: "@ + decimal(h.pending_jobs as nat) + "\nUptime: "@ + decimal(
        h.uptime_seconds as nat,
    ) + "s"@
}

/// The text the tray's Info item shows for the daemon's health.
pub fn format_tray_info(health: &DaemonHealth) -> (s: String)
    ensures
        s@ == spec_tray_info(health@),
{
    let mut s = String::from_str("Gitz Daemon Status\n------------------\nRepositories: ");
    push_decimal(&mut s, health.repo_count as u64);
    s.append("\nPending Jobs: ");
    push_decimal(&mut s, health.pending_jobs as u64);
    s.append("\nUptime: ");
    push_decimal(&mut s, health.uptime_seconds);
    s.append("s");
    s
}

} // verus!
