//! The logo: where it is looked for, and how its text becomes a rectangular
//! block of lines.

use crate::config::Config;
use crate::text::{
    is_blank, is_whitespace, lines_of, space_text, spaces, split_lines, text_is_blank, texts,
};
use vstd::prelude::*;

verus! {

/// The logo that is shown when no logo file is found.
pub const DEFAULT_LOGO: &'static str = r#"
    .---.
   /     \
   \.@-@./
   /`\_/`\
  //  _  \\
 | \     )|_
/`\_`>  <_/ \
\__/'---'\__/
"#;

/// `lines` without the blank lines at its head.
pub open spec fn without_blank_head(lines: Seq<Seq<char>>) -> Seq<Seq<char>>
    decreases lines.len(),
{
    if lines.len() > 0 && is_blank(lines[0]) {
        without_blank_head(lines.skip(1))
    } else {
        lines
    }
}

/// `lines` without the blank lines at its tail.
pub open spec fn without_blank_tail(lines: Seq<Seq<char>>) -> Seq<Seq<char>>
    decreases lines.len(),
{
    if lines.len() > 0 && is_blank(lines.last()) {
        without_blank_tail(lines.drop_last())
    } else {
        lines
    }
}

/// The lines that normalization keeps: all but the blank ones at either end.
pub open spec fn kept_lines(lines: Seq<Seq<char>>) -> Seq<Seq<char>> {
    without_blank_tail(without_blank_head(lines))
}

/// The length of the longest of `lines`, and 0 where there is none.
pub open spec fn max_width(lines: Seq<Seq<char>>) -> nat
    decreases lines.len(),
{
    if lines.len() == 0 {
        0
    } else {
        let rest = max_width(lines.drop_last());
        if lines.last().len() > rest {
            lines.last().len()
        } else {
            rest
        }
    }
}

/// `line` with spaces added at its right up to `width` characters.
pub open spec fn padded(line: Seq<char>, width: nat) -> Seq<char> {
    line + spaces((width - line.len()) as nat)
}

/// The normalized logo: the kept lines, each padded to the width of the longest.
pub open spec fn normalized(lines: Seq<Seq<char>>) -> Seq<Seq<char>> {
    let kept = kept_lines(lines);
    Seq::new(kept.len(), |i: int| padded(kept[i], max_width(kept)))
}

/// Dropping blank lines from the head one by one reaches what is left without them.
proof fn lemma_blank_head(lines: Seq<Seq<char>>, k: int)
    requires
        0 <= k <= lines.len(),
        forall|j: int| 0 <= j < k ==> is_blank(#[trigger] lines[j]),
    ensures
        without_blank_head(lines) == without_blank_head(lines.skip(k)),
    decreases k,
{
    if k == 0 {
        assert(lines.skip(0) =~= lines);
    } else {
        lemma_blank_head(lines.skip(1), k - 1);
        assert(lines.skip(1).skip(k - 1) =~= lines.skip(k));
    }
}

/// Dropping blank lines from the tail one by one reaches what is left without them.
proof fn lemma_blank_tail(lines: Seq<Seq<char>>, k: int)
    requires
        0 <= k <= lines.len(),
        forall|j: int| k <= j < lines.len() ==> is_blank(#[trigger] lines[j]),
    ensures
        without_blank_tail(lines) == without_blank_tail(lines.take(k)),
    decreases lines.len() - k,
{
    if k == lines.len() {
        assert(lines.take(k) =~= lines);
    } else {
        lemma_blank_tail(lines.drop_last(), k);
        assert(lines.drop_last().take(k) =~= lines.take(k));
    }
}

/// No line is longer than the longest.
pub proof fn lemma_max_width_bounds(lines: Seq<Seq<char>>, i: int)
    requires
        0 <= i < lines.len(),
    ensures
        lines[i].len() <= max_width(lines),
    decreases lines.len(),
{
    if i < lines.len() - 1 {
        lemma_max_width_bounds(lines.drop_last(), i);
    }
}

/// Lines of one length have that length as their greatest.
proof fn lemma_max_width_uniform(lines: Seq<Seq<char>>, width: nat)
    requires
        lines.len() > 0,
        forall|i: int| 0 <= i < lines.len() ==> (#[trigger] lines[i]).len() == width,
    ensures
        max_width(lines) == width,
    decreases lines.len(),
{
    assert(lines.last() == lines[lines.len() - 1]);
    if lines.len() > 1 {
        lemma_max_width_uniform(lines.drop_last(), width);
    } else {
        assert(max_width(lines.drop_last()) == 0);
    }
}

/// Normalizes a logo: splits the text into lines, drops the blank lines at either
/// end, and pads each remaining line with spaces to the width of the longest.
pub fn normalize_logo(logo: &str) -> (art: Vec<String>)
    ensures
        texts(art@) == normalized(lines_of(logo@)),
        forall|i: int|
            0 <= i < art@.len() ==> (#[trigger] art@[i])@.len() == max_width(
                kept_lines(lines_of(logo@)),
            ),
{
    let lines = split_lines(logo);
    let ghost all = texts(lines@);
    let mut start: usize = 0;
    let mut end: usize = lines.len();
    while start < end && text_is_blank(lines[start].as_str())
        invariant
            all == texts(lines@),
            start <= end,
            end == lines@.len(),
            forall|j: int| 0 <= j < start ==> is_blank(#[trigger] all[j]),
        decreases end - start,
    {
        start += 1;
    }
    while end > start && text_is_blank(lines[end - 1].as_str())
        invariant
            all == texts(lines@),
            start <= end <= lines@.len(),
            forall|j: int| end <= j < all.len() ==> is_blank(#[trigger] all[j]),
        decreases end,
    {
        end -= 1;
    }
    let ghost kept = all.subrange(start as int, end as int);
    proof {
        let tail = all.skip(start as int);
        lemma_blank_head(all, start as int);
        assert(without_blank_head(all) == tail);
        lemma_blank_tail(tail, end - start);
        assert(tail.take(end - start) =~= kept);
        assert(without_blank_tail(kept) == kept) by {
            if kept.len() > 0 {
                assert(kept.last() == all[end - 1]);
            }
        }
        assert(kept_lines(all) == kept);
    }
    let mut width: usize = 0;
    let mut i: usize = start;
    while i < end
        invariant
            all == texts(lines@),
            start <= i <= end <= lines@.len(),
            kept == all.subrange(start as int, end as int),
            width == max_width(kept.take(i - start)),
        decreases end - i,
    {
        let len: usize = lines[i].as_str().unicode_len();
        proof {
            let upto = kept.take(i - start + 1);
            assert(upto.drop_last() =~= kept.take(i - start));
            assert(upto.last() == all[i as int]);
        }
        if len > width {
            width = len;
        }
        i += 1;
    }
    assert(kept.take(end - start) =~= kept);
    let mut art: Vec<String> = Vec::new();
    let mut i: usize = start;
    while i < end
        invariant
            all == texts(lines@),
            start <= i <= end <= lines@.len(),
            kept == all.subrange(start as int, end as int),
            width == max_width(kept),
            art@.len() == i - start,
            forall|j: int|
                0 <= j < art@.len() ==> (#[trigger] art@[j])@ == padded(kept[j], width as nat),
            forall|j: int| 0 <= j < art@.len() ==> (#[trigger] art@[j])@.len() == width,
        decreases end - i,
    {
        let line = lines[i].as_str();
        proof {
            lemma_max_width_bounds(kept, i - start);
            assert(kept[i - start] == line@);
        }
        let mut row = String::from_str(line);
        let fill = space_text(width - line.unicode_len());
        row.append(fill.as_str());
        art.push(row);
        i += 1;
    }
    assert(texts(art@) =~= normalized(all));
    art
}

/// The lines of a logo that was looked for: those of the text that was found,
/// and those of the built-in logo where none was.
pub fn load_logo(found: Option<&str>) -> (art: Vec<String>)
    ensures
        texts(art@) == normalized(
            lines_of(
                match found {
                    Some(text) => text@,
                    None => DEFAULT_LOGO@,
                },
            ),
        ),
{
    match found {
        Some(text) => normalize_logo(text),
        None => normalize_logo(DEFAULT_LOGO),
    }
}

/// What is left without blank lines at its head is empty or begins with a line
/// that is not blank, and is the end of what it was taken from.
proof fn lemma_head_kept(lines: Seq<Seq<char>>)
    ensures
        without_blank_head(lines).len() == 0 || !is_blank(without_blank_head(lines)[0]),
    decreases lines.len(),
{
    if lines.len() > 0 && is_blank(lines[0]) {
        lemma_head_kept(lines.skip(1));
    }
}

/// Dropping blank lines from the tail keeps the first line in place, and leaves
/// nothing or a last line that is not blank.
proof fn lemma_tail_kept(lines: Seq<Seq<char>>)
    ensures
        without_blank_tail(lines).len() == 0 || !is_blank(without_blank_tail(lines).last()),
        without_blank_tail(lines).len() <= lines.len(),
        without_blank_tail(lines).len() > 0 ==> without_blank_tail(lines)[0] == lines[0],
    decreases lines.len(),
{
    if lines.len() > 0 && is_blank(lines.last()) {
        lemma_tail_kept(lines.drop_last());
    }
}

/// The kept lines are none, or begin and end with a line that is not blank.
pub proof fn lemma_kept_lines_ends(lines: Seq<Seq<char>>)
    ensures
        kept_lines(lines).len() > 0 ==> !is_blank(kept_lines(lines)[0]) && !is_blank(
            kept_lines(lines).last(),
        ),
{
    lemma_head_kept(lines);
    lemma_tail_kept(without_blank_head(lines));
}

/// A line that is not blank stays so when spaces are added at its right.
proof fn lemma_padded_not_blank(line: Seq<char>, width: nat)
    requires
        !is_blank(line),
    ensures
        !is_blank(padded(line, width)),
{
    let at = choose|i: int| 0 <= i < line.len() && !is_whitespace(#[trigger] line[i]);
    assert(padded(line, width)[at] == line[at]);
}

/// Every line of a normalized logo has the same length: that of the longest line
/// that was kept, which is 0 where every line was blank.
pub proof fn lemma_normalized_width(lines: Seq<Seq<char>>, i: int)
    requires
        0 <= i < normalized(lines).len(),
    ensures
        normalized(lines)[i].len() == max_width(kept_lines(lines)),
        kept_lines(lines).len() == 0 ==> max_width(kept_lines(lines)) == 0,
{
    lemma_max_width_bounds(kept_lines(lines), i);
}

/// Normalizing a normalized logo changes nothing.
pub proof fn lemma_normalize_idempotent(lines: Seq<Seq<char>>)
    ensures
        normalized(normalized(lines)) == normalized(lines),
{
    let kept = kept_lines(lines);
    let width = max_width(kept);
    let art = normalized(lines);
    if kept.len() == 0 {
        assert(art =~= Seq::<Seq<char>>::empty());
        assert(normalized(art) =~= art);
    } else {
        lemma_kept_lines_ends(lines);
        assert forall|i: int| 0 <= i < art.len() implies (#[trigger] art[i]).len() == width by {
            lemma_max_width_bounds(kept, i);
        }
        lemma_padded_not_blank(kept[0], width);
        lemma_padded_not_blank(kept.last(), width);
        assert(art[0] == padded(kept[0], width));
        assert(art.last() == padded(kept.last(), width));
        assert(without_blank_head(art) == art);
        assert(without_blank_tail(art) == art);
        assert(kept_lines(art) == art);
        lemma_max_width_uniform(art, width);
        assert forall|i: int| 0 <= i < art.len() implies padded(#[trigger] art[i], width)
            == art[i] by {
            assert(art[i] + spaces(0) =~= art[i]);
        }
        assert(normalized(art) =~= art);
    }
}

/// The length of the longest line that is not blank, and 0 where every line is blank.
pub open spec fn longest_filled(lines: Seq<Seq<char>>) -> nat
    decreases lines.len(),
{
    if lines.len() == 0 {
        0
    } else {
        let rest = longest_filled(lines.drop_last());
        if !is_blank(lines.last()) && lines.last().len() > rest {
            lines.last().len()
        } else {
            rest
        }
    }
}

/// A blank first line does not count towards the longest line that is not blank.
proof fn lemma_longest_filled_skip(lines: Seq<Seq<char>>)
    requires
        lines.len() > 0,
        is_blank(lines[0]),
    ensures
        longest_filled(lines.skip(1)) == longest_filled(lines),
    decreases lines.len(),
{
    if lines.len() == 1 {
        assert(lines.drop_last().len() == 0);
        assert(longest_filled(lines.drop_last()) == 0);
        assert(lines.last() == lines[0]);
    } else {
        lemma_longest_filled_skip(lines.drop_last());
        assert(lines.skip(1).drop_last() =~= lines.drop_last().skip(1));
        assert(lines.skip(1).last() == lines.last());
    }
}

/// Dropping the blank lines at either end leaves the longest line that is not blank.
proof fn lemma_longest_filled_kept(lines: Seq<Seq<char>>)
    ensures
        longest_filled(without_blank_head(lines)) == longest_filled(lines),
        longest_filled(without_blank_tail(lines)) == longest_filled(lines),
    decreases lines.len(),
{
    if lines.len() > 0 && is_blank(lines[0]) {
        lemma_longest_filled_skip(lines);
        lemma_longest_filled_kept(lines.skip(1));
    }
    if lines.len() > 0 && is_blank(lines.last()) {
        lemma_longest_filled_kept(lines.drop_last());
    }
}

/// A line that is not blank is no longer than the longest such line.
proof fn lemma_longest_filled_bounds(lines: Seq<Seq<char>>, i: int)
    requires
        0 <= i < lines.len(),
        !is_blank(lines[i]),
    ensures
        lines[i].len() <= longest_filled(lines),
    decreases lines.len(),
{
    if i < lines.len() - 1 {
        lemma_longest_filled_bounds(lines.drop_last(), i);
    }
}

/// The longest line is at least as long as the longest that is not blank, and
/// no longer than a bound on every line.
proof fn lemma_max_width_between(lines: Seq<Seq<char>>, bound: nat)
    requires
        forall|i: int| 0 <= i < lines.len() ==> (#[trigger] lines[i]).len() <= bound,
    ensures
        longest_filled(lines) <= max_width(lines) <= bound,
    decreases lines.len(),
{
    if lines.len() > 0 {
        assert(lines.last() == lines[lines.len() - 1]);
        lemma_max_width_between(lines.drop_last(), bound);
    }
}

/// The width of a normalized logo is the length of the longest line of the
/// text that is not blank, provided that no blank line between the first and
/// the last such line is longer than that.
pub proof fn lemma_width_is_longest_filled(lines: Seq<Seq<char>>)
    requires
        forall|i: int|
            0 <= i < kept_lines(lines).len() && is_blank(#[trigger] kept_lines(lines)[i])
                ==> kept_lines(lines)[i].len() <= longest_filled(lines),
    ensures
        max_width(kept_lines(lines)) == longest_filled(lines),
{
    let kept = kept_lines(lines);
    lemma_longest_filled_kept(lines);
    lemma_longest_filled_kept(without_blank_head(lines));
    assert(longest_filled(kept) == longest_filled(lines));
    assert forall|i: int| 0 <= i < kept.len() implies (#[trigger] kept[i]).len() <= longest_filled(
        lines,
    ) by {
        if !is_blank(kept[i]) {
            lemma_longest_filled_bounds(kept, i);
        }
    }
    lemma_max_width_between(kept, longest_filled(lines));
}

/// The files in which a logo is looked for, in the order of the search: the
/// configured path where there is one, then `logos/<logo>.txt` below the working
/// directory, then the same below the directory of the installation.
pub open spec fn logo_candidates(
    logo_path: Option<String>,
    logo: Seq<char>,
    install_dir: Seq<char>,
) -> Seq<Seq<char>> {
    let standard = seq!["logos/"@ + logo + ".txt"@, install_dir + "/logos/"@ + logo + ".txt"@];
    match logo_path {
        Some(path) => seq![path@] + standard,
        None => standard,
    }
}

/// Lists the files in which the configured logo is looked for. The first of
/// them that exists holds the logo.
pub fn logo_paths(config: &Config, install_dir: &str) -> (paths: Vec<String>)
    ensures
        texts(paths@) == logo_candidates(
            config.general.logo_path,
            config.general.logo@,
            install_dir@,
        ),
{
    let mut paths: Vec<String> = Vec::new();
    match &config.general.logo_path {
        Some(path) => {
            paths.push(path.clone());
        },
        None => {},
    }
    let mut local = String::from_str("logos/");
    local.append(config.general.logo.as_str());
    local.append(".txt");
    paths.push(local);
    let mut installed = String::from_str(install_dir);
    installed.append("/logos/");
    installed.append(config.general.logo.as_str());
    installed.append(".txt");
    paths.push(installed);
    assert(texts(paths@) =~= logo_candidates(
        config.general.logo_path,
        config.general.logo@,
        install_dir@,
    ));
    paths
}

/// A logo of blank lines alone normalizes to no lines at all.
pub proof fn lemma_blank_logo_is_empty(lines: Seq<Seq<char>>)
    requires
        forall|i: int| 0 <= i < lines.len() ==> is_blank(#[trigger] lines[i]),
    ensures
        normalized(lines).len() == 0,
    decreases lines.len(),
{
    if lines.len() > 0 {
        assert forall|i: int| 0 <= i < lines.skip(1).len() implies is_blank(
            #[trigger] lines.skip(1)[i],
        ) by {
            assert(lines.skip(1)[i] == lines[i + 1]);
        }
        lemma_blank_logo_is_empty(lines.skip(1));
    }
}

} // verus!
