//! The kernel: its version.

use crate::modules::SystemInfo;
use crate::text::{trim_text, trimmed};
use vstd::prelude::*;

verus! {

/// What is known of the kernel.
pub struct KernelInfo {
    pub version: String,
}

impl Default for KernelInfo {
    /// The kernel of which nothing is known.
    fn default() -> (unknown: KernelInfo)
        ensures
            unknown.version@ == "Unknown"@,
    {
        KernelInfo {
            version: String::from_str("Unknown"),
        }
    }
}

/// The table after the facts of `kernel` were set.
pub open spec fn kernel_facts(
    table: Map<Seq<char>, Seq<char>>,
    kernel: KernelInfo,
) -> Map<Seq<char>, Seq<char>> {
    table.insert("kernel_version"@, kernel.version@)
}

/// Sets the fact `kernel_version`.
pub fn load_kernel_info(info: &mut SystemInfo, kernel: &KernelInfo)
    ensures
        final(info)@ == kernel_facts(old(info)@, *kernel),
{
    info.insert(String::from_str("kernel_version"), kernel.version.clone());
}

/// What is known of the kernel from what `uname -r` printed: the release
/// without the white space around it, and `Unknown` where nothing was printed.
pub fn get_kernel(release: Option<&str>) -> (kernel: KernelInfo)
    ensures
        kernel.version@ == match release {
            Some(text) => trimmed(text@),
            None => "Unknown"@,
        },
{
    match release {
        Some(text) => KernelInfo { version: trim_text(text) },
        None => KernelInfo::default(),
    }
}

} // verus!
