//! Template expansion and the layout of rendered lines beside the logo.

use crate::config::Config;
use crate::modules::SystemInfo;
use crate::text::{space_text, spaces, text_eq, texts};
use vstd::prelude::*;

verus! {

/// The characters that a placeholder's name is made of: ASCII letters, digits and `_`.
pub open spec fn is_name_char(c: char) -> bool {
    ||| ('a' <= c && c <= 'z')
    ||| ('A' <= c && c <= 'Z')
    ||| ('0' <= c && c <= '9')
    ||| c == '_'
}

/// A placeholder's name: one name character or more, and nothing else.
pub open spec fn is_name(s: Seq<char>) -> bool {
    &&& s.len() > 0
    &&& forall|i: int| 0 <= i < s.len() ==> is_name_char(#[trigger] s[i])
}

/// How many name characters `t` starts with.
pub open spec fn name_run(t: Seq<char>) -> nat
    decreases t.len(),
{
    if t.len() > 0 && is_name_char(t[0]) {
        1 + name_run(t.skip(1))
    } else {
        0
    }
}

/// The length of the placeholder that `t` starts with: `{`, a name and `}`.
pub open spec fn placeholder_len(t: Seq<char>) -> Option<nat> {
    let n = name_run(t.skip(1));
    if t.len() > 0 && t[0] == '{' && n > 0 && n + 1 < t.len() && t[(n + 1) as int] == '}' {
        Some(n + 2)
    } else {
        None
    }
}

/// A placeholder written out: its name between braces.
pub open spec fn placeholder(name: Seq<char>) -> Seq<char> {
    seq!['{'] + name + seq!['}']
}

/// The escape sequence of a color keyword, for the keywords that have one.
pub open spec fn ansi_sequence(keyword: Seq<char>) -> Option<Seq<char>> {
    if keyword == "black"@ {
        Some("\x1b[30m"@)
    } else if keyword == "red"@ {
        Some("\x1b[31m"@)
    } else if keyword == "green"@ {
        Some("\x1b[32m"@)
    } else if keyword == "yellow"@ {
        Some("\x1b[33m"@)
    } else if keyword == "blue"@ {
        Some("\x1b[34m"@)
    } else if keyword == "magenta"@ {
        Some("\x1b[35m"@)
    } else if keyword == "cyan"@ {
        Some("\x1b[36m"@)
    } else if keyword == "white"@ {
        Some("\x1b[37m"@)
    } else if keyword == "bright_black"@ {
        Some("\x1b[90m"@)
    } else if keyword == "bright_red"@ {
        Some("\x1b[91m"@)
    } else if keyword == "bright_green"@ {
        Some("\x1b[92m"@)
    } else if keyword == "bright_yellow"@ {
        Some("\x1b[93m"@)
    } else if keyword == "bright_blue"@ {
        Some("\x1b[94m"@)
    } else if keyword == "bright_magenta"@ {
        Some("\x1b[95m"@)
    } else if keyword == "bright_cyan"@ {
        Some("\x1b[96m"@)
    } else if keyword == "bright_white"@ {
        Some("\x1b[97m"@)
    } else if keyword == "reset"@ {
        Some("\x1b[0m"@)
    } else if keyword == "bold"@ {
        Some("\x1b[1m"@)
    } else if keyword == "dim"@ {
        Some("\x1b[2m"@)
    } else if keyword == "italic"@ {
        Some("\x1b[3m"@)
    } else if keyword == "underline"@ {
        Some("\x1b[4m"@)
    } else if keyword == "blink"@ {
        Some("\x1b[5m"@)
    } else if keyword == "reverse"@ {
        Some("\x1b[7m"@)
    } else if keyword == "hidden"@ {
        Some("\x1b[8m"@)
    } else {
        None
    }
}

/// Looks a color keyword up in the table of escape sequences.
pub fn ansi_code(keyword: &str) -> (code: Option<&'static str>)
    ensures
        match code {
            Some(sequence) => ansi_sequence(keyword@) == Some(sequence@),
            None => ansi_sequence(keyword@) is None,
        },
{
    if text_eq(keyword, "black") {
        Some("\x1b[30m")
    } else if text_eq(keyword, "red") {
        Some("\x1b[31m")
    } else if text_eq(keyword, "green") {
        Some("\x1b[32m")
    } else if text_eq(keyword, "yellow") {
        Some("\x1b[33m")
    } else if text_eq(keyword, "blue") {
        Some("\x1b[34m")
    } else if text_eq(keyword, "magenta") {
        Some("\x1b[35m")
    } else if text_eq(keyword, "cyan") {
        Some("\x1b[36m")
    } else if text_eq(keyword, "white") {
        Some("\x1b[37m")
    } else if text_eq(keyword, "bright_black") {
        Some("\x1b[90m")
    } else if text_eq(keyword, "bright_red") {
        Some("\x1b[91m")
    } else if text_eq(keyword, "bright_green") {
        Some("\x1b[92m")
    } else if text_eq(keyword, "bright_yellow") {
        Some("\x1b[93m")
    } else if text_eq(keyword, "bright_blue") {
        Some("\x1b[94m")
    } else if text_eq(keyword, "bright_magenta") {
        Some("\x1b[95m")
    } else if text_eq(keyword, "bright_cyan") {
        Some("\x1b[96m")
    } else if text_eq(keyword, "bright_white") {
        Some("\x1b[97m")
    } else if text_eq(keyword, "reset") {
        Some("\x1b[0m")
    } else if text_eq(keyword, "bold") {
        Some("\x1b[1m")
    } else if text_eq(keyword, "dim") {
        Some("\x1b[2m")
    } else if text_eq(keyword, "italic") {
        Some("\x1b[3m")
    } else if text_eq(keyword, "underline") {
        Some("\x1b[4m")
    } else if text_eq(keyword, "blink") {
        Some("\x1b[5m")
    } else if text_eq(keyword, "reverse") {
        Some("\x1b[7m")
    } else if text_eq(keyword, "hidden") {
        Some("\x1b[8m")
    } else {
        None
    }
}

/// What a placeholder's name stands for. A color name gives the escape sequence of
/// its keyword, and stays as written where the keyword has none. Any other name
/// gives the fact that it names, then the separator for the name `separator`, and
/// else stays as written.
pub open spec fn resolved(
    name: Seq<char>,
    colors: Map<Seq<char>, Seq<char>>,
    facts: Map<Seq<char>, Seq<char>>,
    separator: Seq<char>,
) -> Seq<char> {
    if colors.contains_key(name) {
        match ansi_sequence(colors[name]) {
            Some(sequence) => sequence,
            None => placeholder(name),
        }
    } else if facts.contains_key(name) {
        facts[name]
    } else if name == "separator"@ {
        separator
    } else {
        placeholder(name)
    }
}

/// A template with each placeholder replaced by what its name stands for, in one
/// pass from left to right: what is put in is not read again.
pub open spec fn expanded(
    t: Seq<char>,
    colors: Map<Seq<char>, Seq<char>>,
    facts: Map<Seq<char>, Seq<char>>,
    separator: Seq<char>,
) -> Seq<char>
    decreases t.len(),
{
    if t.len() == 0 {
        t
    } else {
        match placeholder_len(t) {
            Some(n) => resolved(t.subrange(1, n - 1), colors, facts, separator) + expanded(
                t.skip(n as int),
                colors,
                facts,
                separator,
            ),
            None => t.take(1) + expanded(t.skip(1), colors, facts, separator),
        }
    }
}

/// Gives what a placeholder's name stands for.
pub fn resolve_placeholder(name: &str, config: &Config, info: &SystemInfo) -> (value: String)
    ensures
        value@ == resolved(name@, config.colors@, info@, config.general.separator@),
{
    match config.colors.get(name) {
        Some(keyword) => {
            return match ansi_code(keyword.as_str()) {
                Some(sequence) => String::from_str(sequence),
                None => written_placeholder(name),
            };
        },
        None => {},
    }
    match info.get(name) {
        Some(value) => {
            return value.clone();
        },
        None => {},
    }
    if text_eq(name, "separator") {
        config.general.separator.clone()
    } else {
        written_placeholder(name)
    }
}

/// Writes a placeholder out: its name between braces.
fn written_placeholder(name: &str) -> (token: String)
    ensures
        token@ == placeholder(name@),
{
    proof {
        reveal_strlit("{");
        reveal_strlit("}");
    }
    let mut token = String::from_str("{");
    token.append(name);
    token.append("}");
    assert(token@ =~= placeholder(name@));
    token
}

/// Finds the first placeholder of `text` with `regex::Regex::captures`, on the
/// pattern that `regex::Regex::new` compiles for a brace, one or more ASCII
/// letters, digits or underscores, and a closing brace. The search returns the
/// leftmost match, so no placeholder starts before the one that is returned,
/// and none starts anywhere when there is no match. The three parts are the
/// text before the match, its first capture group, and the text after the match.
#[verifier::external_body]
fn first_placeholder<'a>(text: &'a str) -> (found: Option<(&'a str, &'a str, &'a str)>)
    ensures
        match found {
            Some((before, name, after)) => {
                &&& text@ == before@ + placeholder(name@) + after@
                &&& is_name(name@)
                &&& forall|i: int|
                    0 <= i < before@.len() ==> placeholder_len(#[trigger] text@.skip(i)) is None
            },
            None => forall|i: int|
                0 <= i < text@.len() ==> placeholder_len(#[trigger] text@.skip(i)) is None,
        },
{
    let pattern = regex::Regex::new("\\{([a-zA-Z0-9_]+)\\}").unwrap();
    match pattern.captures(text) {
        Some(groups) => {
            let whole = groups.get(0).unwrap();
            let name = groups.get(1).unwrap();
            Some((&text[..whole.start()], name.as_str(), &text[whole.end()..]))
        },
        None => None,
    }
}

/// A run of name characters followed by something else has the length of the run.
proof fn lemma_name_run(name: Seq<char>, rest: Seq<char>)
    requires
        forall|i: int| 0 <= i < name.len() ==> is_name_char(#[trigger] name[i]),
        rest.len() == 0 || !is_name_char(rest[0]),
    ensures
        name_run(name + rest) == name.len(),
    decreases name.len(),
{
    if name.len() == 0 {
        assert(name + rest =~= rest);
    } else {
        assert((name + rest)[0] == name[0]);
        assert((name + rest).skip(1) =~= name.skip(1) + rest);
        assert forall|i: int| 0 <= i < name.skip(1).len() implies is_name_char(
            #[trigger] name.skip(1)[i],
        ) by {
            assert(name.skip(1)[i] == name[i + 1]);
        }
        lemma_name_run(name.skip(1), rest);
    }
}

/// A text that begins with a written placeholder starts with that placeholder.
pub proof fn lemma_placeholder_in_front(name: Seq<char>, after: Seq<char>)
    requires
        is_name(name),
    ensures
        placeholder_len(placeholder(name) + after) == Some((name.len() + 2) as nat),
        (placeholder(name) + after).subrange(1, name.len() as int + 1) == name,
        (placeholder(name) + after).skip(name.len() as int + 2) == after,
{
    let t = placeholder(name) + after;
    let rest = seq!['}'] + after;
    assert(t.skip(1) =~= name + rest);
    assert(rest[0] == '}');
    lemma_name_run(name, rest);
    assert(t[0] == '{');
    assert(t[name.len() as int + 1] == '}');
    assert(t.subrange(1, name.len() as int + 1) =~= name);
    assert(t.skip(name.len() as int + 2) =~= after);
}

/// Where no placeholder starts within the first `k` characters, expansion leaves
/// those characters as they are.
pub proof fn lemma_expanded_plain_prefix(
    t: Seq<char>,
    k: int,
    colors: Map<Seq<char>, Seq<char>>,
    facts: Map<Seq<char>, Seq<char>>,
    separator: Seq<char>,
)
    requires
        0 <= k <= t.len(),
        forall|i: int| 0 <= i < k ==> placeholder_len(#[trigger] t.skip(i)) is None,
    ensures
        expanded(t, colors, facts, separator) == t.take(k) + expanded(
            t.skip(k),
            colors,
            facts,
            separator,
        ),
    decreases k,
{
    if k == 0 {
        assert(t.skip(0) =~= t);
        assert(t.take(0) + expanded(t, colors, facts, separator) =~= expanded(
            t,
            colors,
            facts,
            separator,
        ));
    } else {
        assert(t.skip(0) =~= t);
        assert(placeholder_len(t) is None);
        let u = t.skip(1);
        assert forall|i: int| 0 <= i < k - 1 implies placeholder_len(#[trigger] u.skip(i)) is None by {
            assert(u.skip(i) =~= t.skip(i + 1));
        }
        lemma_expanded_plain_prefix(u, k - 1, colors, facts, separator);
        assert(u.skip(k - 1) =~= t.skip(k));
        assert(t.take(1) + u.take(k - 1) =~= t.take(k));
        assert(t.take(1) + (u.take(k - 1) + expanded(t.skip(k), colors, facts, separator)) =~= t.take(
            k,
        ) + expanded(t.skip(k), colors, facts, separator));
    }
}

/// Expands the placeholders of one template line.
pub fn render_template(template: &str, config: &Config, info: &SystemInfo) -> (line: String)
    ensures
        line@ == expanded(template@, config.colors@, info@, config.general.separator@),
{
    let ghost colors = config.colors@;
    let ghost facts = info@;
    let ghost separator = config.general.separator@;
    let mut line = String::new();
    let mut rest: &str = template;
    loop
        invariant
            colors == config.colors@,
            facts == info@,
            separator == config.general.separator@,
            line@ + expanded(rest@, colors, facts, separator) == expanded(
                template@,
                colors,
                facts,
                separator,
            ),
        decreases rest@.len(),
    {
        let ghost text = rest@;
        let ghost done = line@;
        match first_placeholder(rest) {
            Some((before, name, after)) => {
                let value = resolve_placeholder(name, config, info);
                proof {
                    let k = before@.len() as int;
                    let tail = placeholder(name@) + after@;
                    assert(text =~= before@ + tail);
                    assert(text.take(k) =~= before@);
                    assert(text.skip(k) =~= tail);
                    lemma_expanded_plain_prefix(text, k, colors, facts, separator);
                    lemma_placeholder_in_front(name@, after@);
                    assert(tail.len() > 0);
                    assert(expanded(tail, colors, facts, separator) == value@ + expanded(
                        after@,
                        colors,
                        facts,
                        separator,
                    ));
                    assert(done + before@ + value@ + expanded(after@, colors, facts, separator)
                        =~= done + (before@ + (value@ + expanded(
                        after@,
                        colors,
                        facts,
                        separator,
                    ))));
                }
                line.append(before);
                line.append(value.as_str());
                rest = after;
            },
            None => {
                proof {
                    lemma_expanded_plain_prefix(text, text.len() as int, colors, facts, separator);
                    assert(text.take(text.len() as int) =~= text);
                    assert(text.skip(text.len() as int).len() == 0);
                    assert(text + text.skip(text.len() as int) =~= text);
                }
                line.append(rest);
                return line;
            },
        }
    }
}

/// The width of a logo: the length of its first line, and 0 for a logo without lines.
pub open spec fn logo_width(logo: Seq<Seq<char>>) -> nat {
    if logo.len() == 0 {
        0
    } else {
        logo[0].len()
    }
}

/// One row of the output. Beside each layout line stands the logo line of the
/// same index, or blanks of the logo's width where the logo has ended, then the
/// padding and the expanded line. Below the layout the logo's lines stand alone.
pub open spec fn output_row(
    row: int,
    logo: Seq<Seq<char>>,
    layout: Seq<Seq<char>>,
    padding: nat,
    colors: Map<Seq<char>, Seq<char>>,
    facts: Map<Seq<char>, Seq<char>>,
    separator: Seq<char>,
) -> Seq<char> {
    if row < layout.len() {
        let beside = if row < logo.len() {
            logo[row]
        } else {
            spaces(logo_width(logo))
        };
        beside + spaces(padding) + expanded(layout[row], colors, facts, separator)
    } else {
        logo[row]
    }
}

/// The whole output: as many rows as the longer of layout and logo has lines.
pub open spec fn rendered(
    logo: Seq<Seq<char>>,
    layout: Seq<Seq<char>>,
    padding: nat,
    colors: Map<Seq<char>, Seq<char>>,
    facts: Map<Seq<char>, Seq<char>>,
    separator: Seq<char>,
) -> Seq<Seq<char>> {
    Seq::new(
        if layout.len() >= logo.len() {
            layout.len()
        } else {
            logo.len()
        },
        |row: int| output_row(row, logo, layout, padding, colors, facts, separator),
    )
}

/// Lays the expanded layout out beside the logo and returns the rows to print.
pub fn render_output(logo: &[String], config: &Config, system_info: &SystemInfo) -> (rows: Vec<
    String,
>)
    ensures
        texts(rows@) == rendered(
            texts(logo@),
            texts(config.layout.lines@),
            config.general.padding as nat,
            config.colors@,
            system_info@,
            config.general.separator@,
        ),
{
    let ghost art = texts(logo@);
    let ghost layout = texts(config.layout.lines@);
    let ghost colors = config.colors@;
    let ghost facts = system_info@;
    let ghost separator = config.general.separator@;
    let ghost pad = config.general.padding as nat;
    let padding = space_text(config.general.padding);
    let filler = if logo.len() == 0 {
        String::new()
    } else {
        space_text(logo[0].as_str().unicode_len())
    };
    assert(filler@ =~= spaces(logo_width(art)));
    let lines: usize = config.layout.lines.len();
    let mut rows: Vec<String> = Vec::new();
    let mut row: usize = 0;
    while row < lines
        invariant
            lines == config.layout.lines@.len(),
            row <= lines,
            rows@.len() == row,
            art == texts(logo@),
            layout == texts(config.layout.lines@),
            colors == config.colors@,
            facts == system_info@,
            separator == config.general.separator@,
            padding@ == spaces(pad),
            filler@ == spaces(logo_width(art)),
            forall|r: int|
                0 <= r < row ==> (#[trigger] rows@[r])@ == output_row(
                    r,
                    art,
                    layout,
                    pad,
                    colors,
                    facts,
                    separator,
                ),
        decreases lines - row,
    {
        let mut line = if row < logo.len() {
            logo[row].clone()
        } else {
            filler.clone()
        };
        line.append(padding.as_str());
        let text = render_template(config.layout.lines[row].as_str(), config, system_info);
        line.append(text.as_str());
        rows.push(line);
        row += 1;
    }
    while row < logo.len()
        invariant
            lines == config.layout.lines@.len(),
            lines <= row,
            row == lines || row <= logo@.len(),
            rows@.len() == row,
            art == texts(logo@),
            layout == texts(config.layout.lines@),
            forall|r: int|
                0 <= r < row ==> (#[trigger] rows@[r])@ == output_row(
                    r,
                    art,
                    layout,
                    pad,
                    colors,
                    facts,
                    separator,
                ),
        decreases logo@.len() - row,
    {
        rows.push(logo[row].clone());
        row += 1;
    }
    assert(texts(rows@) =~= rendered(art, layout, pad, colors, facts, separator));
    rows
}

/// `part` occurs somewhere in `s`.
pub open spec fn contains_text(s: Seq<char>, part: Seq<char>) -> bool {
    exists|at: int| occurs_at(s, part, at)
}

/// `part` occurs in `s` at the position `at`.
pub open spec fn occurs_at(s: Seq<char>, part: Seq<char>, at: int) -> bool {
    &&& 0 <= at
    &&& at + part.len() <= s.len()
    &&& s.subrange(at, at + part.len()) == part
}

/// The characters that `name_run` counts are name characters.
proof fn lemma_name_run_chars(t: Seq<char>, j: int)
    requires
        0 <= j < name_run(t),
    ensures
        j < t.len(),
        is_name_char(t[j]),
    decreases t.len(),
{
    if j > 0 {
        lemma_name_run_chars(t.skip(1), j - 1);
        assert(t.skip(1)[j - 1] == t[j]);
    }
}

/// Inside a placeholder, after its opening brace, there is no other opening brace.
proof fn lemma_no_brace_inside(t: Seq<char>, j: int)
    requires
        placeholder_len(t) is Some,
        1 <= j < placeholder_len(t)->0,
    ensures
        t[j] != '{',
{
    let n = name_run(t.skip(1));
    if j <= n {
        lemma_name_run_chars(t.skip(1), j - 1);
        assert(t.skip(1)[j - 1] == t[j]);
    }
}

/// A placeholder that occurs at `at` in a template, and whose name stands for
/// nothing, occurs in the expanded template.
proof fn lemma_unresolved_stays_at(
    t: Seq<char>,
    at: int,
    name: Seq<char>,
    colors: Map<Seq<char>, Seq<char>>,
    facts: Map<Seq<char>, Seq<char>>,
    separator: Seq<char>,
)
    requires
        is_name(name),
        occurs_at(t, placeholder(name), at),
        resolved(name, colors, facts, separator) == placeholder(name),
    ensures
        contains_text(expanded(t, colors, facts, separator), placeholder(name)),
    decreases t.len(),
{
    let token = placeholder(name);
    let size = token.len() as int;
    let out = expanded(t, colors, facts, separator);
    assert(size == name.len() + 2);
    assert(t.subrange(at, at + size)[0] == '{');
    assert(t[at] == '{');
    if at == 0 {
        let after = t.skip(size);
        assert(t =~= token + after);
        lemma_placeholder_in_front(name, after);
        assert(out == token + expanded(after, colors, facts, separator));
        assert(out.subrange(0, size) =~= token);
        assert(occurs_at(out, token, 0));
    } else {
        let step: int = match placeholder_len(t) {
            Some(n) => n as int,
            None => 1,
        };
        let front = match placeholder_len(t) {
            Some(n) => resolved(t.subrange(1, n - 1), colors, facts, separator),
            None => t.take(1),
        };
        if placeholder_len(t) is Some && at < step {
            lemma_no_brace_inside(t, at);
        }
        assert(1 <= step <= at);
        let u = t.skip(step);
        let rest = expanded(u, colors, facts, separator);
        assert(out == front + rest);
        assert(u.subrange(at - step, at - step + size) =~= t.subrange(at, at + size));
        lemma_unresolved_stays_at(u, at - step, name, colors, facts, separator);
        let inner = choose|i: int| occurs_at(rest, token, i);
        assert(out.subrange(front.len() + inner, front.len() + inner + size) =~= rest.subrange(
            inner,
            inner + size,
        ));
        assert(occurs_at(out, token, front.len() + inner));
    }
}

/// A placeholder whose name stands for nothing is left as written: where a
/// template holds it, the expanded template holds it too.
pub proof fn lemma_unresolved_placeholder_stays(
    template: Seq<char>,
    name: Seq<char>,
    colors: Map<Seq<char>, Seq<char>>,
    facts: Map<Seq<char>, Seq<char>>,
    separator: Seq<char>,
)
    requires
        is_name(name),
        contains_text(template, placeholder(name)),
        resolved(name, colors, facts, separator) == placeholder(name),
    ensures
        contains_text(expanded(template, colors, facts, separator), placeholder(name)),
{
    let at = choose|i: int| occurs_at(template, placeholder(name), i);
    lemma_unresolved_stays_at(template, at, name, colors, facts, separator);
}

/// A placeholder whose name is no color name, no fact and not `separator` comes
/// out of the expansion as it went in.
pub proof fn lemma_unknown_placeholder_stays(
    template: Seq<char>,
    name: Seq<char>,
    colors: Map<Seq<char>, Seq<char>>,
    facts: Map<Seq<char>, Seq<char>>,
    separator: Seq<char>,
)
    requires
        is_name(name),
        contains_text(template, placeholder(name)),
        !colors.contains_key(name),
        !facts.contains_key(name),
        name != "separator"@,
    ensures
        contains_text(expanded(template, colors, facts, separator), placeholder(name)),
{
    lemma_unresolved_placeholder_stays(template, name, colors, facts, separator);
}

/// A color name whose keyword has no escape sequence is left as written, whatever
/// the fact table holds under that name.
pub proof fn lemma_unknown_keyword_stays(
    template: Seq<char>,
    name: Seq<char>,
    colors: Map<Seq<char>, Seq<char>>,
    facts: Map<Seq<char>, Seq<char>>,
    separator: Seq<char>,
)
    requires
        is_name(name),
        contains_text(template, placeholder(name)),
        colors.contains_key(name),
        ansi_sequence(colors[name]) is None,
    ensures
        resolved(name, colors, facts, separator) == placeholder(name),
        contains_text(expanded(template, colors, facts, separator), placeholder(name)),
{
    lemma_unresolved_placeholder_stays(template, name, colors, facts, separator);
}

/// A color name whose keyword has an escape sequence stands for that sequence,
/// also where the fact table holds a fact of the same name.
pub proof fn lemma_color_precedes_fact(
    name: Seq<char>,
    colors: Map<Seq<char>, Seq<char>>,
    facts: Map<Seq<char>, Seq<char>>,
    separator: Seq<char>,
)
    requires
        colors.contains_key(name),
        ansi_sequence(colors[name]) is Some,
    ensures
        resolved(name, colors, facts, separator) == ansi_sequence(colors[name])->0,
{
}

/// Where no name stands for anything, expansion gives the template back.
pub proof fn lemma_expanded_round_trip(
    t: Seq<char>,
    colors: Map<Seq<char>, Seq<char>>,
    facts: Map<Seq<char>, Seq<char>>,
    separator: Seq<char>,
)
    requires
        forall|name: Seq<char>|
            is_name(name) ==> #[trigger] resolved(name, colors, facts, separator) == placeholder(
                name,
            ),
    ensures
        expanded(t, colors, facts, separator) == t,
    decreases t.len(),
{
    if t.len() > 0 {
        match placeholder_len(t) {
            Some(n) => {
                let name = t.subrange(1, n - 1);
                assert forall|i: int| 0 <= i < name.len() implies is_name_char(
                    #[trigger] name[i],
                ) by {
                    lemma_name_run_chars(t.skip(1), i);
                    assert(t.skip(1)[i] == name[i]);
                }
                assert(placeholder(name) =~= t.take(n as int));
                lemma_expanded_round_trip(t.skip(n as int), colors, facts, separator);
                assert(t.take(n as int) + t.skip(n as int) =~= t);
            },
            None => {
                lemma_expanded_round_trip(t.skip(1), colors, facts, separator);
                assert(t.take(1) + t.skip(1) =~= t);
            },
        }
    }
}

} // verus!
