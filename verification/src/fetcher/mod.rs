//! Records of a system report.

use vstd::prelude::*;

pub mod gpu;

verus! {

/// A disk: the space that is available on it in bytes, and how it is mounted.
#[derive(Debug)]
pub struct SystemDisk {
    pub available_space: u64,
    pub file_system: String,
    pub is_removable: bool,
    pub kind: String,
    pub mount_point: String,
    pub name: String,
}

/// Memory in bytes: all of it, and what is used.
#[derive(Clone, Copy, Debug, PartialEq, Eq, Structural)]
pub struct SystemMemory {
    pub total: u64,
    pub used: u64,
}

/// The operating system: its name, version, kernel and host name.
#[derive(Debug)]
pub struct SystemInfo {
    pub name: String,
    pub version: String,
    pub kernel: String,
    pub host: String,
}

/// The traffic of a network interface in one direction.
#[derive(Clone, Copy, Debug, PartialEq, Eq, Structural)]
pub struct SystemNetworkInterfaceStats {
    pub data: u64,
    pub total: u64,
    pub errors: u64,
    pub packets: u64,
}

/// A network interface and its traffic.
#[derive(Debug)]
pub struct SystemNetworkInterface {
    pub name: String,
    pub mac: String,
    pub received: SystemNetworkInterfaceStats,
    pub transmitted: SystemNetworkInterfaceStats,
}

/// The time since boot: in whole hours, the minutes and seconds beyond them,
/// and in seconds.
#[derive(Clone, Copy, Debug, PartialEq, Eq, Structural)]
pub struct SystemUptime {
    pub hours: u64,
    pub minutes: u64,
    pub seconds: u64,
    pub total: u64,
}

/// Splits the time since boot, given in seconds, into hours, minutes and seconds.
pub fn uptime(total: u64) -> (split: SystemUptime)
    ensures
        split.total == total,
        split.hours == total / 3600,
        split.minutes == (total % 3600) / 60,
        split.seconds == total % 60,
        split.hours * 3600 + split.minutes * 60 + split.seconds == total,
        split.minutes < 60,
        split.seconds < 60,
{
    SystemUptime {
        hours: total / 3600,
        minutes: (total % 3600) / 60,
        seconds: total % 60,
        total,
    }
}

/// A text that was read, or `Unknown` where none was.
pub fn text_or_unknown(text: Option<String>) -> (shown: String)
    ensures
        shown@ == match text {
            Some(value) => value@,
            None => "Unknown"@,
        },
{
    match text {
        Some(value) => value,
        None => String::from_str("Unknown"),
    }
}

/// The report of the operating system from what was read of it; what was not
/// read is `Unknown`.
pub fn os(
    name: Option<String>,
    version: Option<String>,
    kernel: Option<String>,
    host: Option<String>,
) -> (info: SystemInfo)
    ensures
        info.name@ == match name {
            Some(value) => value@,
            None => "Unknown"@,
        },
        info.version@ == match version {
            Some(value) => value@,
            None => "Unknown"@,
        },
        info.kernel@ == match kernel {
            Some(value) => value@,
            None => "Unknown"@,
        },
        info.host@ == match host {
            Some(value) => value@,
            None => "Unknown"@,
        },
{
    SystemInfo {
        name: text_or_unknown(name),
        version: text_or_unknown(version),
        kernel: text_or_unknown(kernel),
        host: text_or_unknown(host),
    }
}

} // verus!
