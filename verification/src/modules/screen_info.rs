//! The screen: its resolution and refresh rate.

use crate::modules::SystemInfo;
use crate::text::{
    char_is_whitespace, decimal, decimal_text, find_text, first_occurrence, is_whitespace,
    lemma_trimmed_start_skip, lines_of, nth_word, parse_count, parsed_count, piece, split_lines,
    slice_text, split_piece, texts, to_chars, trimmed_start, word,
};
use vstd::prelude::*;

verus! {

/// What is known of the screen: width and height in pixels, refresh rate in Hz.
pub struct ScreenInfo {
    pub width: usize,
    pub height: usize,
    pub refresh_rate: usize,
}

impl Default for ScreenInfo {
    /// The screen of which nothing is known.
    fn default() -> (unknown: ScreenInfo)
        ensures
            unknown.width == 0,
            unknown.height == 0,
            unknown.refresh_rate == 0,
    {
        ScreenInfo {
            width: 0,
            height: 0,
            refresh_rate: 0,
        }
    }
}

/// The table after the facts of `screen` were set.
pub open spec fn screen_facts(
    table: Map<Seq<char>, Seq<char>>,
    screen: ScreenInfo,
) -> Map<Seq<char>, Seq<char>> {
    table
        .insert("screen_width"@, decimal(screen.width as nat))
        .insert("screen_height"@, decimal(screen.height as nat))
        .insert("screen_refresh_rate"@, decimal(screen.refresh_rate as nat))
}

/// Sets the facts `screen_width`, `screen_height` and `screen_refresh_rate`.
pub fn load_screen_info(info: &mut SystemInfo, screen: &ScreenInfo)
    ensures
        final(info)@ == screen_facts(old(info)@, *screen),
{
    info.insert(String::from_str("screen_width"), decimal_text(screen.width as u64));
    info.insert(String::from_str("screen_height"), decimal_text(screen.height as u64));
    info.insert(String::from_str("screen_refresh_rate"), decimal_text(screen.refresh_rate as u64));
}

/// Whether a character is numeric, as `char::is_numeric` tells: whether it is
/// in one of Unicode's general categories for numbers.
pub uninterp spec fn numeric_char(c: char) -> bool;

/// Asks `char::is_numeric` of the standard library whether a character is
/// numeric. Its answer depends on the character alone.
#[verifier::external_body]
fn char_is_numeric(c: char) -> (b: bool)
    ensures
        b == numeric_char(c),
{
    c.is_numeric()
}

/// A mode that the display settings list as the current one: its width and
/// height in pixels, and its refresh rate as it is written.
pub struct ScreenMode {
    pub width: usize,
    pub height: usize,
    pub rate: String,
}

/// What a mode's view holds.
pub struct ScreenModeView {
    pub width: usize,
    pub height: usize,
    pub rate: Seq<char>,
}

impl View for ScreenMode {
    type V = ScreenModeView;

    open spec fn view(&self) -> ScreenModeView {
        ScreenModeView { width: self.width, height: self.height, rate: self.rate@ }
    }
}

/// The modes that a list holds, in order.
pub open spec fn mode_views(modes: Seq<ScreenMode>) -> Seq<ScreenModeView> {
    Seq::new(modes.len(), |i: int| modes[i]@)
}

/// A line that tells of an output to which a display is connected.
pub open spec fn names_connected(line: Seq<char>) -> bool {
    first_occurrence(line, " connected "@) is Some
}

/// A line that tells of an output to which no display is connected.
pub open spec fn names_disconnected(line: Seq<char>) -> bool {
    first_occurrence(line, "disconnected"@) is Some
}

/// A line whose first character behind the white space is numeric.
pub open spec fn begins_numeric(line: Seq<char>) -> bool {
    trimmed_start(line).len() > 0 && numeric_char(trimmed_start(line)[0])
}

/// A rate without the marks `*` and `+` at its end.
pub open spec fn without_marks(rate: Seq<char>) -> Seq<char>
    decreases rate.len(),
{
    if rate.len() > 0 && (rate.last() == '*' || rate.last() == '+') {
        without_marks(rate.drop_last())
    } else {
        rate
    }
}

/// The current mode that a line tells of. Its first word is width and height
/// with an `x` between them; its second word is the rate and holds a `*`.
pub open spec fn mode_of(line: Seq<char>) -> Option<ScreenModeView> {
    match (word(line, 0), word(line, 1)) {
        (Some(size), Some(rate)) => {
            if first_occurrence(rate, "*"@) is Some && piece(size, 'x', 1) is Some && piece(
                size,
                'x',
                2,
            ) is None {
                match (parsed_count(piece(size, 'x', 0)->0), parsed_count(piece(size, 'x', 1)->0)) {
                    (Some(width), Some(height)) => Some(
                        ScreenModeView { width, height, rate: without_marks(rate) },
                    ),
                    _ => None,
                }
            } else {
                None
            }
        },
        _ => None,
    }
}

/// The current mode that one line adds. `connected` says whether the line
/// continues the part of a connected output, and `numeric` whether its first
/// character behind the white space is numeric. A line that names a connected
/// output adds none.
pub open spec fn line_mode(line: Seq<char>, connected: bool, numeric: bool) -> Option<
    ScreenModeView,
> {
    if !names_connected(line) && connected && numeric {
        mode_of(line)
    } else {
        None
    }
}

/// Whether the part of a connected output goes on behind a line: it begins
/// with a line that names a connected output, and a line that names a
/// disconnected one ends it.
pub open spec fn connected_after(line: Seq<char>, connected: bool) -> bool {
    names_connected(line) || (connected && !names_disconnected(line))
}

/// The current modes of the connected outputs that the lines tell of, in
/// order. `connected` says whether the lines continue the part of a connected
/// output.
pub open spec fn modes_from(lines: Seq<Seq<char>>, connected: bool) -> Seq<ScreenModeView>
    decreases lines.len(),
{
    if lines.len() == 0 {
        Seq::empty()
    } else {
        let here = match line_mode(lines[0], connected, begins_numeric(lines[0])) {
            Some(mode) => seq![mode],
            None => Seq::empty(),
        };
        here + modes_from(lines.skip(1), connected_after(lines[0], connected))
    }
}

/// Tests whether the first character of a line behind the white space is numeric.
fn line_begins_numeric(line: &str) -> (b: bool)
    ensures
        b == begins_numeric(line@),
{
    let chars = to_chars(line);
    let len: usize = chars.len();
    let mut start: usize = 0;
    while start < len && char_is_whitespace(chars[start])
        invariant
            chars@ == line@,
            len == line@.len(),
            start <= len,
            forall|j: int| 0 <= j < start ==> is_whitespace(#[trigger] line@[j]),
        decreases len - start,
    {
        start += 1;
    }
    proof {
        lemma_trimmed_start_skip(line@, start as int);
    }
    start < len && char_is_numeric(chars[start])
}

/// Removing marks from the end step by step reaches the same text as removing them at once.
proof fn lemma_without_marks(rate: Seq<char>, k: int)
    requires
        0 <= k <= rate.len(),
        forall|j: int| k <= j < rate.len() ==> rate[j] == '*' || rate[j] == '+',
    ensures
        without_marks(rate) == without_marks(rate.take(k)),
    decreases rate.len() - k,
{
    if k == rate.len() {
        assert(rate.take(k) =~= rate);
    } else {
        lemma_without_marks(rate.drop_last(), k);
        assert(rate.drop_last().take(k) =~= rate.take(k));
    }
}

/// Copies a rate without the marks `*` and `+` at its end.
fn strip_marks(rate: &str) -> (t: String)
    ensures
        t@ == without_marks(rate@),
{
    let chars = to_chars(rate);
    let mut end: usize = chars.len();
    while end > 0 && (chars[end - 1] == '*' || chars[end - 1] == '+')
        invariant
            chars@ == rate@,
            end <= rate@.len(),
            forall|j: int| end <= j < rate@.len() ==> rate@[j] == '*' || rate@[j] == '+',
        decreases end,
    {
        end -= 1;
    }
    proof {
        lemma_without_marks(rate@, end as int);
        let kept = rate@.take(end as int);
        assert(kept =~= rate@.subrange(0, end as int));
        if end > 0 {
            assert(kept.last() == rate@[end - 1]);
        }
    }
    slice_text(&chars, 0, end)
}

/// Reads the current mode that a line tells of.
fn read_mode(line: &str) -> (mode: Option<ScreenMode>)
    ensures
        match mode {
            Some(found) => mode_of(line@) == Some(found@),
            None => mode_of(line@) is None,
        },
{
    let size = match nth_word(line, 0) {
        Some(size) => size,
        None => {
            return None;
        },
    };
    let rate = match nth_word(line, 1) {
        Some(rate) => rate,
        None => {
            return None;
        },
    };
    if find_text(rate.as_str(), "*").is_none() {
        return None;
    }
    let width = match split_piece(size.as_str(), 'x', 0) {
        Some(width) => width,
        None => {
            return None;
        },
    };
    let height = match split_piece(size.as_str(), 'x', 1) {
        Some(height) => height,
        None => {
            return None;
        },
    };
    if split_piece(size.as_str(), 'x', 2).is_some() {
        return None;
    }
    match (parse_count(width.as_str()), parse_count(height.as_str())) {
        (Some(width), Some(height)) => Some(
            ScreenMode { width, height, rate: strip_marks(rate.as_str()) },
        ),
        _ => None,
    }
}

/// Reads one line of the display settings: the current mode that it adds, and
/// whether the part of a connected output goes on behind it. `connected` says
/// whether the line continues such a part, and `numeric` whether its first
/// character behind the white space is numeric.
pub fn read_line(line: &str, connected: bool, numeric: bool) -> (step: (Option<ScreenMode>, bool))
    ensures
        match step.0 {
            Some(mode) => line_mode(line@, connected, numeric) == Some(mode@),
            None => line_mode(line@, connected, numeric) is None,
        },
        step.1 == connected_after(line@, connected),
{
    if find_text(line, " connected ").is_some() {
        return (None, true);
    }
    let mode = if connected && numeric {
        read_mode(line)
    } else {
        None
    };
    (mode, connected && find_text(line, "disconnected").is_none())
}

/// Lists the current modes of the connected outputs that the display settings
/// tell of, in their order. The first of them whose rate is a number is the
/// mode of the screen.
pub fn screen_modes(settings: &str) -> (modes: Vec<ScreenMode>)
    ensures
        mode_views(modes@) == modes_from(lines_of(settings@), false),
{
    let lines = split_lines(settings);
    let ghost all = texts(lines@);
    let mut modes: Vec<ScreenMode> = Vec::new();
    let mut connected = false;
    let mut i: usize = 0;
    assert(all.skip(0) =~= all);
    assert(mode_views(modes@) =~= Seq::<ScreenModeView>::empty());
    while i < lines.len()
        invariant
            i <= lines@.len(),
            all == texts(lines@),
            mode_views(modes@) + modes_from(all.skip(i as int), connected) == modes_from(
                all,
                false,
            ),
        decreases lines@.len() - i,
    {
        let line = lines[i].as_str();
        let ghost before = mode_views(modes@);
        let ghost rest = all.skip(i as int);
        assert(rest[0] == line@);
        assert(rest.skip(1) =~= all.skip(i + 1));
        let numeric = connected && line_begins_numeric(line);
        let (mode, next) = read_line(line, connected, numeric);
        assert(line_mode(line@, connected, numeric) == line_mode(
            line@,
            connected,
            begins_numeric(line@),
        ));
        let ghost tail = modes_from(rest.skip(1), next);
        match mode {
            Some(mode) => {
                modes.push(mode);
                assert(mode_views(modes@) =~= before + seq![mode@]);
                assert(before + (seq![mode@] + tail) =~= (before + seq![mode@]) + tail);
            },
            None => {
                assert(before + (Seq::<ScreenModeView>::empty() + tail) =~= before + tail);
            },
        }
        connected = next;
        i += 1;
    }
    assert(mode_views(modes@) + Seq::<ScreenModeView>::empty() =~= mode_views(modes@));
    modes
}

} // verus!
