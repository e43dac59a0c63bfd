//! Where the configuration is kept.

use vstd::prelude::*;

verus! {

/// The configuration file that is looked for in the working directory.
pub const INLINE_CONFIG_FILE: &'static str = "kifetch.toml";

/// The directory of the configuration, below the home directory.
pub const CONFIG_DIR: &'static str = ".config/kifetch";

/// The home directory: the first of the two variables that is set, and `.`
/// where neither is.
pub open spec fn home_or_here(home: Option<String>, user_profile: Option<String>) -> Seq<char> {
    match home {
        Some(dir) => dir@,
        None => match user_profile {
            Some(dir) => dir@,
            None => "."@,
        },
    }
}

/// Picks the home directory from the values of `HOME` and `USERPROFILE`.
pub fn home_dir(home: Option<String>, user_profile: Option<String>) -> (dir: String)
    ensures
        dir@ == home_or_here(home, user_profile),
{
    match home {
        Some(dir) => dir,
        None => match user_profile {
            Some(dir) => dir,
            None => String::from_str("."),
        },
    }
}

/// The path of the configuration file: the file in the working directory
/// where it exists, else `config.toml` in the configuration directory below home.
pub fn get_config_path(home_dir: &str, inline_exists: bool) -> (path: String)
    ensures
        path@ == if inline_exists {
            INLINE_CONFIG_FILE@
        } else {
            home_dir@ + "/"@ + CONFIG_DIR@ + "/config.toml"@
        },
{
    if inline_exists {
        String::from_str(INLINE_CONFIG_FILE)
    } else {
        let mut path = String::from_str(home_dir);
        path.append("/");
        path.append(CONFIG_DIR);
        path.append("/config.toml");
        path
    }
}

/// The directory of the installation: the working directory where it holds a
/// configuration file, else the configuration directory below home.
pub fn get_config_dir(home_dir: &str, inline_exists: bool) -> (dir: String)
    ensures
        dir@ == if inline_exists {
            "."@
        } else {
            home_dir@ + "/"@ + CONFIG_DIR@ + "/"@
        },
{
    if inline_exists {
        String::from_str(".")
    } else {
        let mut dir = String::from_str(home_dir);
        dir.append("/");
        dir.append(CONFIG_DIR);
        dir.append("/");
        dir
    }
}

} // verus!
