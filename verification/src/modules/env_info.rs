//! The user's environment: shell, user, language, terminal and the like.

use crate::modules::SystemInfo;
use crate::text::{slice_text, to_chars};
use vstd::prelude::*;

verus! {

/// What the environment holds. A variable that is not set is `None`. `windows`
/// tells the family of the system: there `shell` is the command interpreter, and
/// terminal and display are not shown.
pub struct EnvInfo {
    pub windows: bool,
    pub shell: Option<String>,
    pub username: Option<String>,
    pub home: Option<String>,
    pub lang: Option<String>,
    pub term: Option<String>,
    pub editor: Option<String>,
    pub display: Option<String>,
    pub session: Option<String>,
    pub arch: String,
    pub os: String,
}

/// A variable's value, and `unknown` for one that is not set.
pub open spec fn value_or_unknown(value: Option<String>) -> Seq<char> {
    match value {
        Some(text) => text@,
        None => "unknown"@,
    }
}

/// The characters that separate the parts of a path.
pub open spec fn is_path_separator(c: char) -> bool {
    c == '/' || c == '\\'
}

/// Where the last part of a path begins: behind its last separator, and at 0
/// where it has none.
pub open spec fn base_start(path: Seq<char>) -> nat
    decreases path.len(),
{
    if path.len() == 0 {
        0
    } else if is_path_separator(path.last()) {
        path.len()
    } else {
        base_start(path.drop_last())
    }
}

/// The last part of a path.
pub open spec fn base_name(path: Seq<char>) -> Seq<char> {
    path.skip(base_start(path) as int)
}

/// The table after the facts of `env` were set.
pub open spec fn env_facts(table: Map<Seq<char>, Seq<char>>, env: EnvInfo) -> Map<
    Seq<char>,
    Seq<char>,
> {
    let first = table.insert("env_shell"@, base_name(value_or_unknown(env.shell))).insert(
        "env_username"@,
        value_or_unknown(env.username),
    ).insert("env_home"@, value_or_unknown(env.home)).insert(
        "env_lang"@,
        value_or_unknown(env.lang),
    );
    let second = if env.windows {
        first
    } else {
        first.insert("env_term"@, value_or_unknown(env.term))
    };
    let third = second.insert("env_editor"@, value_or_unknown(env.editor));
    let fourth = if env.windows {
        third
    } else {
        third.insert("env_display"@, value_or_unknown(env.display))
    };
    fourth.insert("env_session"@, value_or_unknown(env.session)).insert(
        "env_arch"@,
        env.arch@,
    ).insert("env_os"@, env.os@)
}

/// Copies a variable's value, or gives `unknown` for one that is not set.
fn text_or_unknown(value: &Option<String>) -> (text: String)
    ensures
        text@ == value_or_unknown(*value),
{
    match value {
        Some(text) => text.clone(),
        None => String::from_str("unknown"),
    }
}

/// The part of a path behind its last separator stays the same when characters
/// that are no separators are added at the end.
proof fn lemma_base_start(path: Seq<char>, k: int)
    requires
        0 <= k <= path.len(),
        forall|j: int| k <= j < path.len() ==> !is_path_separator(#[trigger] path[j]),
        k == 0 || is_path_separator(path[k - 1]),
    ensures
        base_start(path) == k,
    decreases path.len() - k,
{
    if k < path.len() {
        lemma_base_start(path.drop_last(), k);
    }
}

/// Copies the last part of a path.
pub fn path_base_name(path: &str) -> (name: String)
    ensures
        name@ == base_name(path@),
{
    let chars = to_chars(path);
    let len: usize = chars.len();
    let mut start: usize = len;
    while start > 0 && chars[start - 1] != '/' && chars[start - 1] != '\\'
        invariant
            chars@ == path@,
            len == path@.len(),
            start <= len,
            forall|j: int| start <= j < len ==> !is_path_separator(#[trigger] path@[j]),
        decreases start,
    {
        start -= 1;
    }
    proof {
        lemma_base_start(path@, start as int);
        assert(path@.subrange(start as int, len as int) =~= path@.skip(start as int));
    }
    slice_text(&chars, start, len)
}

/// Sets the facts of the environment: `env_shell` (the last part of the
/// shell's path), `env_username`, `env_home`, `env_lang`, `env_editor`,
/// `env_session`, `env_arch` and `env_os`, and, except on Windows, `env_term` and
/// `env_display`. A variable that is not set gives `unknown`.
pub fn load_env_info(info: &mut SystemInfo, env: &EnvInfo)
    ensures
        final(info)@ == env_facts(old(info)@, *env),
{
    let shell = text_or_unknown(&env.shell);
    info.insert(String::from_str("env_shell"), path_base_name(shell.as_str()));
    info.insert(String::from_str("env_username"), text_or_unknown(&env.username));
    info.insert(String::from_str("env_home"), text_or_unknown(&env.home));
    info.insert(String::from_str("env_lang"), text_or_unknown(&env.lang));
    if !env.windows {
        info.insert(String::from_str("env_term"), text_or_unknown(&env.term));
    }
    info.insert(String::from_str("env_editor"), text_or_unknown(&env.editor));
    if !env.windows {
        info.insert(String::from_str("env_display"), text_or_unknown(&env.display));
    }
    info.insert(String::from_str("env_session"), text_or_unknown(&env.session));
    info.insert(String::from_str("env_arch"), env.arch.clone());
    info.insert(String::from_str("env_os"), env.os.clone());
}

} // verus!
