//! The firmware: its vendor, its version and the board it runs on.

use crate::modules::SystemInfo;
use crate::text::{trim_text, trimmed};
use vstd::prelude::*;

verus! {

/// What is known of the firmware.
pub struct BiosInfo {
    pub vendor: String,
    pub version: String,
    pub motherboard: String,
}

impl Default for BiosInfo {
    /// The firmware of which nothing is known.
    fn default() -> (unknown: BiosInfo)
        ensures
            unknown.vendor@ == "unknown"@,
            unknown.version@ == "unknown"@,
            unknown.motherboard@ == "unknown"@,
    {
        BiosInfo {
            vendor: String::from_str("unknown"),
            version: String::from_str("unknown"),
            motherboard: String::from_str("unknown"),
        }
    }
}

/// The table after the facts of `bios` were set.
pub open spec fn bios_facts(
    table: Map<Seq<char>, Seq<char>>,
    bios: BiosInfo,
) -> Map<Seq<char>, Seq<char>> {
    table
        .insert("bios_vendor"@, bios.vendor@)
        .insert("bios_version"@, bios.version@)
        .insert("bios_motherboard"@, bios.motherboard@)
}

/// Sets the facts `bios_vendor`, `bios_version` and `bios_motherboard`.
pub fn load_bios_info(info: &mut SystemInfo, bios: &BiosInfo)
    ensures
        final(info)@ == bios_facts(old(info)@, *bios),
{
    info.insert(String::from_str("bios_vendor"), bios.vendor.clone());
    info.insert(String::from_str("bios_version"), bios.version.clone());
    info.insert(String::from_str("bios_motherboard"), bios.motherboard.clone());
}

/// The text of a firmware file without the white space around it, and the empty
/// text for a file that could not be read.
pub open spec fn file_value(content: Option<&str>) -> Seq<char> {
    match content {
        Some(text) => trimmed(text@),
        None => Seq::empty(),
    }
}

/// Copies the value that a firmware file holds.
fn read_trimmed(content: Option<&str>) -> (value: String)
    ensures
        value@ == file_value(content),
{
    match content {
        Some(text) => trim_text(text),
        None => String::new(),
    }
}

/// What is known of the firmware from the contents of the three files that
/// tell of it.
pub fn get_bios_info(vendor: Option<&str>, version: Option<&str>, motherboard: Option<&str>) -> (bios:
    BiosInfo)
    ensures
        bios.vendor@ == file_value(vendor),
        bios.version@ == file_value(version),
        bios.motherboard@ == file_value(motherboard),
{
    BiosInfo {
        vendor: read_trimmed(vendor),
        version: read_trimmed(version),
        motherboard: read_trimmed(motherboard),
    }
}

} // verus!
