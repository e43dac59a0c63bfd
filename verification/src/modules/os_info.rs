//! The operating system: its name, version and host name.

use crate::modules::SystemInfo;
use crate::text::{
    has_prefix, lines_of, split_lines, starts_with, strip_leading, strip_text, stripped, texts,
    trim_text, trimmed, without_leading,
};
use vstd::prelude::*;

verus! {

/// What is known of the operating system.
pub struct OsInfo {
    pub name: String,
    pub version: String,
    pub hostname: String,
}

/// The table after the facts of `os` were set.
pub open spec fn os_facts(
    table: Map<Seq<char>, Seq<char>>,
    os: OsInfo,
) -> Map<Seq<char>, Seq<char>> {
    table
        .insert("os_name"@, os.name@)
        .insert("os_version"@, os.version@)
        .insert("os_hostname"@, os.hostname@)
}

/// Sets the facts `os_name`, `os_version` and `os_hostname`.
pub fn load_os_info(info: &mut SystemInfo, os: &OsInfo)
    ensures
        final(info)@ == os_facts(old(info)@, *os),
{
    info.insert(String::from_str("os_name"), os.name.clone());
    info.insert(String::from_str("os_version"), os.version.clone());
    info.insert(String::from_str("os_hostname"), os.hostname.clone());
}

/// The name that an `os-release` file gives: what follows `PRETTY_NAME=` in
/// the first line that begins so, without the quotes around it.
pub open spec fn pretty_name(lines: Seq<Seq<char>>) -> Option<Seq<char>>
    decreases lines.len(),
{
    if lines.len() == 0 {
        None
    } else if has_prefix(lines[0], "PRETTY_NAME="@) {
        Some(stripped(without_leading(lines[0], "PRETTY_NAME="@), '"'))
    } else {
        pretty_name(lines.skip(1))
    }
}

/// Finds the name that an `os-release` file gives.
pub fn find_pretty_name(os_release: &str) -> (name: Option<String>)
    ensures
        match name {
            Some(text) => pretty_name(lines_of(os_release@)) == Some(text@),
            None => pretty_name(lines_of(os_release@)) is None,
        },
{
    let lines = split_lines(os_release);
    let ghost all = texts(lines@);
    let mut i: usize = 0;
    assert(all.skip(0) =~= all);
    while i < lines.len()
        invariant
            i <= lines@.len(),
            all == texts(lines@),
            all == lines_of(os_release@),
            pretty_name(all) == pretty_name(all.skip(i as int)),
        decreases lines@.len() - i,
    {
        let line = lines[i].as_str();
        assert(all.skip(i as int)[0] == line@);
        if starts_with(line, "PRETTY_NAME=") {
            let value = strip_leading(line, "PRETTY_NAME=");
            return Some(strip_text(value.as_str(), '"'));
        }
        assert(all.skip(i as int).skip(1) =~= all.skip(i + 1));
        i += 1;
    }
    None
}

/// What is known of the operating system. Its name is the one that the
/// `os-release` file gives, or else the names of system and architecture; its
/// host name is what the host name file holds, without the white space around it.
pub fn get_os(os: &str, arch: &str, os_release: Option<&str>, hostname: Option<&str>) -> (info:
    OsInfo)
    ensures
        info.name@ == match os_release {
            Some(text) => match pretty_name(lines_of(text@)) {
                Some(name) => name,
                None => os@ + " "@ + arch@,
            },
            None => os@ + " "@ + arch@,
        },
        info.version@ == "Unknown"@,
        info.hostname@ == match hostname {
            Some(text) => trimmed(text@),
            None => "Unknown"@,
        },
{
    let found = match os_release {
        Some(text) => find_pretty_name(text),
        None => None,
    };
    let name = match found {
        Some(name) => name,
        None => {
            let mut name = String::from_str(os);
            name.append(" ");
            name.append(arch);
            name
        },
    };
    let hostname = match hostname {
        Some(text) => trim_text(text),
        None => String::from_str("Unknown"),
    };
    OsInfo { name, version: String::from_str("Unknown"), hostname }
}

} // verus!
