//! Text primitives shared by the rest of the crate: white space, trimming,
//! decimal numerals and runs of spaces, each with its model over `Seq<char>`.

use vstd::prelude::*;
use vstd::std_specs::iter::IteratorSpec;

verus! {

/// The code points that count as white space (Unicode's `White_Space` property).
pub open spec fn is_whitespace(c: char) -> bool {
    ||| ('\u{9}' <= c && c <= '\u{d}')
    ||| c == ' '
    ||| c == '\u{85}'
    ||| c == '\u{a0}'
    ||| c == '\u{1680}'
    ||| ('\u{2000}' <= c && c <= '\u{200a}')
    ||| c == '\u{2028}'
    ||| c == '\u{2029}'
    ||| c == '\u{202f}'
    ||| c == '\u{205f}'
    ||| c == '\u{3000}'
}

/// A text is blank when it holds nothing but white space.
pub open spec fn is_blank(s: Seq<char>) -> bool {
    forall|i: int| 0 <= i < s.len() ==> is_whitespace(#[trigger] s[i])
}

/// `s` without its leading white space.
pub open spec fn trimmed_start(s: Seq<char>) -> Seq<char>
    decreases s.len(),
{
    if s.len() > 0 && is_whitespace(s[0]) {
        trimmed_start(s.skip(1))
    } else {
        s
    }
}

/// `s` without its trailing white space.
pub open spec fn trimmed_end(s: Seq<char>) -> Seq<char>
    decreases s.len(),
{
    if s.len() > 0 && is_whitespace(s.last()) {
        trimmed_end(s.drop_last())
    } else {
        s
    }
}

/// `s` without the white space at either end.
pub open spec fn trimmed(s: Seq<char>) -> Seq<char> {
    trimmed_end(trimmed_start(s))
}

/// `n` spaces.
pub open spec fn spaces(n: nat) -> Seq<char> {
    Seq::new(n, |i: int| ' ')
}

/// The numeral for a single decimal digit.
pub open spec fn digit_char(d: nat) -> char {
    if d == 0 {
        '0'
    } else if d == 1 {
        '1'
    } else if d == 2 {
        '2'
    } else if d == 3 {
        '3'
    } else if d == 4 {
        '4'
    } else if d == 5 {
        '5'
    } else if d == 6 {
        '6'
    } else if d == 7 {
        '7'
    } else if d == 8 {
        '8'
    } else {
        '9'
    }
}

/// The decimal numeral of `n`, without sign or leading zeros.
pub open spec fn decimal(n: nat) -> Seq<char>
    decreases n,
{
    if n < 10 {
        seq![digit_char(n)]
    } else {
        decimal(n / 10).push(digit_char(n % 10))
    }
}

/// `String::push` of the standard library adds one character at the end of a text.
pub assume_specification[ String::push ](text: &mut String, c: char)
    ensures
        final(text)@ == old(text)@.push(c),
;

/// Copies the characters of a text into a vector, where each can be reached by its place.
pub fn to_chars(s: &str) -> (chars: Vec<char>)
    ensures
        chars@ == s@,
{
    broadcast use vstd::string::group_string_axioms;

    let len: usize = s.unicode_len();
    let mut chars: Vec<char> = Vec::new();
    let mut rest = s.chars();
    assert(rest.remaining() == s@);
    let mut i: usize = 0;
    while i < len
        invariant
            len == s@.len(),
            i <= len,
            rest.obeys_prophetic_iter_laws(),
            chars@ == s@.take(i as int),
            rest.remaining() == s@.skip(i as int),
        decreases len - i,
    {
        let ghost before = rest.remaining();
        match rest.next() {
            Some(c) => {
                assert(c == s@[i as int]);
                assert(before.drop_first() =~= s@.skip(i + 1));
                chars.push(c);
                assert(chars@ =~= s@.take(i + 1));
            },
            None => {
                assert(false);
            },
        }
        i += 1;
    }
    assert(s@.take(len as int) =~= s@);
    chars
}

/// Writes the characters from `from` up to `to` out as a text.
pub fn slice_text(chars: &Vec<char>, from: usize, to: usize) -> (text: String)
    requires
        from <= to <= chars@.len(),
    ensures
        text@ == chars@.subrange(from as int, to as int),
{
    let mut text = String::new();
    let mut i: usize = from;
    while i < to
        invariant
            from <= i <= to <= chars@.len(),
            text@ == chars@.subrange(from as int, i as int),
        decreases to - i,
    {
        text.push(chars[i]);
        assert(text@ =~= chars@.subrange(from as int, i + 1));
        i += 1;
    }
    text
}

/// Tests one character for white space.
pub fn char_is_whitespace(c: char) -> (b: bool)
    ensures
        b == is_whitespace(c),
{
    ('\u{9}' <= c && c <= '\u{d}') || c == ' ' || c == '\u{85}' || c == '\u{a0}' || c == '\u{1680}'
        || ('\u{2000}' <= c && c <= '\u{200a}') || c == '\u{2028}' || c == '\u{2029}' || c
        == '\u{202f}' || c == '\u{205f}' || c == '\u{3000}'
}

/// Tests whether a text holds nothing but white space.
pub fn text_is_blank(s: &str) -> (b: bool)
    ensures
        b == is_blank(s@),
{
    let chars = to_chars(s);
    let len: usize = chars.len();
    let mut i: usize = 0;
    while i < len
        invariant
            chars@ == s@,
            len == s@.len(),
            i <= len,
            forall|j: int| 0 <= j < i ==> is_whitespace(#[trigger] s@[j]),
        decreases len - i,
    {
        if !char_is_whitespace(chars[i]) {
            return false;
        }
        i += 1;
    }
    true
}

/// Removing leading white space step by step reaches the same text as removing it at once.
pub proof fn lemma_trimmed_start_skip(s: Seq<char>, k: int)
    requires
        0 <= k <= s.len(),
        forall|j: int| 0 <= j < k ==> is_whitespace(#[trigger] s[j]),
    ensures
        trimmed_start(s) == trimmed_start(s.skip(k)),
    decreases k,
{
    if k == 0 {
        assert(s.skip(0) =~= s);
    } else {
        lemma_trimmed_start_skip(s.skip(1), k - 1);
        assert(s.skip(1).skip(k - 1) =~= s.skip(k));
    }
}

/// Removing trailing white space step by step reaches the same text as removing it at once.
proof fn lemma_trimmed_end_take(s: Seq<char>, k: int)
    requires
        0 <= k <= s.len(),
        forall|j: int| k <= j < s.len() ==> is_whitespace(#[trigger] s[j]),
    ensures
        trimmed_end(s) == trimmed_end(s.take(k)),
    decreases s.len() - k,
{
    if k == s.len() {
        assert(s.take(k) =~= s);
    } else {
        lemma_trimmed_end_take(s.drop_last(), k);
        assert(s.drop_last().take(k) =~= s.take(k));
    }
}

/// Copies `s` without the white space at either end.
pub fn trim_text(s: &str) -> (t: String)
    ensures
        t@ == trimmed(s@),
{
    let chars = to_chars(s);
    let len: usize = chars.len();
    let mut start: usize = 0;
    while start < len && char_is_whitespace(chars[start])
        invariant
            chars@ == s@,
            len == s@.len(),
            start <= len,
            forall|j: int| 0 <= j < start ==> is_whitespace(#[trigger] s@[j]),
        decreases len - start,
    {
        start += 1;
    }
    let mut end: usize = len;
    while end > start && char_is_whitespace(chars[end - 1])
        invariant
            chars@ == s@,
            len == s@.len(),
            start <= end <= len,
            forall|j: int| end <= j < len ==> is_whitespace(#[trigger] s@[j]),
        decreases end,
    {
        end -= 1;
    }
    proof {
        let rest = s@.skip(start as int);
        lemma_trimmed_start_skip(s@, start as int);
        assert(trimmed_start(s@) == rest);
        lemma_trimmed_end_take(rest, end - start);
        assert(rest.take(end - start) =~= s@.subrange(start as int, end as int));
        let kept = s@.subrange(start as int, end as int);
        assert(trimmed_end(kept) == kept) by {
            if kept.len() > 0 {
                assert(kept.last() == s@[end - 1]);
            }
        }
    }
    slice_text(&chars, start, end)
}

/// The one-character text of a decimal digit.
fn digit_text(d: u64) -> (s: &'static str)
    requires
        d < 10,
    ensures
        s@ == seq![digit_char(d as nat)],
{
    proof {
        reveal_strlit("0");
        reveal_strlit("1");
        reveal_strlit("2");
        reveal_strlit("3");
        reveal_strlit("4");
        reveal_strlit("5");
        reveal_strlit("6");
        reveal_strlit("7");
        reveal_strlit("8");
        reveal_strlit("9");
    }
    let s: &'static str = if d == 0 {
        "0"
    } else if d == 1 {
        "1"
    } else if d == 2 {
        "2"
    } else if d == 3 {
        "3"
    } else if d == 4 {
        "4"
    } else if d == 5 {
        "5"
    } else if d == 6 {
        "6"
    } else if d == 7 {
        "7"
    } else if d == 8 {
        "8"
    } else {
        "9"
    };
    assert(s@ =~= seq![digit_char(d as nat)]);
    s
}

/// Writes `n` as a decimal numeral.
pub fn decimal_text(n: u64) -> (s: String)
    ensures
        s@ == decimal(n as nat),
    decreases n,
{
    if n < 10 {
        String::from_str(digit_text(n))
    } else {
        let mut s = decimal_text(n / 10);
        s.append(digit_text(n % 10));
        assert(s@ =~= decimal(n as nat));
        s
    }
}

/// Builds a text of `n` spaces.
pub fn space_text(n: usize) -> (s: String)
    ensures
        s@ == spaces(n as nat),
{
    let mut s = String::new();
    let mut i: usize = 0;
    proof {
        reveal_strlit(" ");
    }
    while i < n
        invariant
            i <= n,
            s@ =~= spaces(i as nat),
            " "@ =~= seq![' '],
        decreases n - i,
    {
        s.append(" ");
        i += 1;
    }
    s
}

/// The texts that a list of strings holds, in order.
pub open spec fn texts(v: Seq<String>) -> Seq<Seq<char>> {
    Seq::new(v.len(), |i: int| v[i]@)
}

/// Tests two texts for equality, character by character.
pub fn text_eq(a: &str, b: &str) -> (same: bool)
    ensures
        same == (a@ == b@),
{
    let len: usize = a.unicode_len();
    if len != b.unicode_len() {
        return false;
    }
    let mut i: usize = 0;
    while i < len
        invariant
            len == a@.len(),
            len == b@.len(),
            i <= len,
            forall|j: int| 0 <= j < i ==> a@[j] == b@[j],
        decreases len - i,
    {
        if a.get_char(i) != b.get_char(i) {
            return false;
        }
        i += 1;
    }
    assert(a@ =~= b@);
    true
}

/// Joins two texts.
pub fn joined(a: &str, b: &str) -> (s: String)
    ensures
        s@ == a@ + b@,
{
    let mut s = String::from_str(a);
    s.append(b);
    s
}

/// `s` begins with `prefix`.
pub open spec fn has_prefix(s: Seq<char>, prefix: Seq<char>) -> bool {
    prefix.len() <= s.len() && s.take(prefix.len() as int) == prefix
}

/// Tests whether a text begins with another.
pub fn starts_with(s: &str, prefix: &str) -> (b: bool)
    ensures
        b == has_prefix(s@, prefix@),
{
    let len: usize = prefix.unicode_len();
    if len > s.unicode_len() {
        return false;
    }
    let mut i: usize = 0;
    while i < len
        invariant
            len == prefix@.len(),
            len <= s@.len(),
            i <= len,
            forall|j: int| 0 <= j < i ==> s@[j] == prefix@[j],
        decreases len - i,
    {
        if s.get_char(i) != prefix.get_char(i) {
            assert(s@.take(len as int)[i as int] != prefix@[i as int]);
            return false;
        }
        i += 1;
    }
    assert(s@.take(len as int) =~= prefix@);
    true
}

/// How many characters stand before the first `mark` in `s`.
pub open spec fn span_before(s: Seq<char>, mark: char) -> nat
    decreases s.len(),
{
    if s.len() == 0 || s[0] == mark {
        0
    } else {
        1 + span_before(s.skip(1), mark)
    }
}

/// The `n`-th of the pieces that `mark` splits `s` into, counted from 0. A text
/// with `k` marks has `k + 1` pieces, empty ones among them.
pub open spec fn piece(s: Seq<char>, mark: char, n: nat) -> Option<Seq<char>>
    decreases n,
{
    let k = span_before(s, mark) as int;
    if n == 0 {
        Some(s.take(k))
    } else if k >= s.len() {
        None
    } else {
        piece(s.skip(k + 1), mark, (n - 1) as nat)
    }
}

/// A stretch without `mark` that ends at a `mark`, or at the end of the text, is
/// what stands before the first `mark`.
pub proof fn lemma_span_before(s: Seq<char>, mark: char, k: int)
    requires
        0 <= k <= s.len(),
        forall|j: int| 0 <= j < k ==> s[j] != mark,
        k == s.len() || s[k] == mark,
    ensures
        span_before(s, mark) == k,
    decreases k,
{
    if k > 0 {
        lemma_span_before(s.skip(1), mark, k - 1);
    }
}

/// Copies the `n`-th of the pieces that `mark` splits `s` into.
pub fn split_piece(s: &str, mark: char, n: usize) -> (found: Option<String>)
    ensures
        match found {
            Some(text) => piece(s@, mark, n as nat) == Some(text@),
            None => piece(s@, mark, n as nat) is None,
        },
{
    let chars = to_chars(s);
    let len: usize = chars.len();
    let mut start: usize = 0;
    let mut left: usize = n;
    assert(s@.skip(0) =~= s@);
    loop
        invariant
            chars@ == s@,
            len == s@.len(),
            start <= len,
            piece(s@, mark, n as nat) == piece(s@.skip(start as int), mark, left as nat),
        decreases left,
    {
        let mut end: usize = start;
        while end < len && chars[end] != mark
            invariant
                chars@ == s@,
                len == s@.len(),
                start <= end <= len,
                forall|j: int| start <= j < end ==> s@[j] != mark,
            decreases len - end,
        {
            end += 1;
        }
        proof {
            lemma_span_before(s@.skip(start as int), mark, end - start);
        }
        if left == 0 {
            assert(s@.skip(start as int).take(end - start) =~= s@.subrange(
                start as int,
                end as int,
            ));
            return Some(slice_text(&chars, start, end));
        }
        if end == len {
            return None;
        }
        assert(s@.skip(start as int).skip(end - start + 1) =~= s@.skip(end + 1));
        start = end + 1;
        left -= 1;
    }
}

/// How many characters of `s` stand before its first white space.
pub open spec fn word_len(s: Seq<char>) -> nat
    decreases s.len(),
{
    if s.len() == 0 || is_whitespace(s[0]) {
        0
    } else {
        1 + word_len(s.skip(1))
    }
}

/// The `n`-th word of `s`, counted from 0: words are what white space separates.
pub open spec fn word(s: Seq<char>, n: nat) -> Option<Seq<char>>
    decreases n,
{
    let t = trimmed_start(s);
    let w = word_len(t) as int;
    if t.len() == 0 {
        None
    } else if n == 0 {
        Some(t.take(w))
    } else {
        word(t.skip(w), (n - 1) as nat)
    }
}

/// A stretch without white space that ends at white space, or at the end of
/// the text, is the first word's extent.
proof fn lemma_word_len(s: Seq<char>, k: int)
    requires
        0 <= k <= s.len(),
        forall|j: int| 0 <= j < k ==> !is_whitespace(#[trigger] s[j]),
        k == s.len() || is_whitespace(s[k]),
    ensures
        word_len(s) == k,
    decreases k,
{
    if k > 0 {
        assert forall|j: int| 0 <= j < k - 1 implies !is_whitespace(#[trigger] s.skip(1)[j]) by {
            assert(s.skip(1)[j] == s[j + 1]);
        }
        lemma_word_len(s.skip(1), k - 1);
    }
}

/// Copies the `n`-th word of a text.
pub fn nth_word(s: &str, n: usize) -> (found: Option<String>)
    ensures
        match found {
            Some(text) => word(s@, n as nat) == Some(text@),
            None => word(s@, n as nat) is None,
        },
{
    let chars = to_chars(s);
    let len: usize = chars.len();
    let mut at: usize = 0;
    let mut left: usize = n;
    assert(s@.skip(0) =~= s@);
    loop
        invariant
            chars@ == s@,
            len == s@.len(),
            at <= len,
            word(s@, n as nat) == word(s@.skip(at as int), left as nat),
        decreases left,
    {
        let ghost from = s@.skip(at as int);
        let mut start: usize = at;
        while start < len && char_is_whitespace(chars[start])
            invariant
                chars@ == s@,
                len == s@.len(),
                at <= start <= len,
                forall|j: int| at <= j < start ==> is_whitespace(#[trigger] s@[j]),
            decreases len - start,
        {
            start += 1;
        }
        let mut end: usize = start;
        while end < len && !char_is_whitespace(chars[end])
            invariant
                chars@ == s@,
                len == s@.len(),
                start <= end <= len,
                forall|j: int| start <= j < end ==> !is_whitespace(#[trigger] s@[j]),
            decreases len - end,
        {
            end += 1;
        }
        proof {
            let t = s@.skip(start as int);
            assert forall|j: int| 0 <= j < start - at implies is_whitespace(#[trigger] from[j]) by {
                assert(from[j] == s@[at + j]);
            }
            lemma_trimmed_start_skip(from, start - at);
            assert(from.skip(start - at) =~= t);
            assert(trimmed_start(from) == t);
            assert forall|j: int| 0 <= j < end - start implies !is_whitespace(#[trigger] t[j]) by {
                assert(t[j] == s@[start + j]);
            }
            lemma_word_len(t, end - start);
            assert(t.take(end - start) =~= s@.subrange(start as int, end as int));
            assert(t.skip(end - start) =~= s@.skip(end as int));
        }
        if start == len {
            return None;
        }
        if left == 0 {
            return Some(slice_text(&chars, start, end));
        }
        at = end;
        left -= 1;
    }
}

/// The decimal digits.
pub open spec fn is_digit(c: char) -> bool {
    '0' <= c && c <= '9'
}

/// The number that a digit stands for.
pub open spec fn digit_value(c: char) -> nat {
    (c as u32 - '0' as u32) as nat
}

/// The number that a run of digits stands for, and 0 for the empty run.
pub open spec fn digits_value(s: Seq<char>) -> nat
    decreases s.len(),
{
    if s.len() == 0 {
        0
    } else {
        digits_value(s.drop_last()) * 10 + digit_value(s.last())
    }
}

/// The number that a decimal numeral stands for: one digit or more, which a
/// plus sign may precede. Any other text stands for none.
pub open spec fn parsed_number(s: Seq<char>) -> Option<nat> {
    if s.len() > 0 && s[0] == '+' {
        unsigned_number(s.skip(1))
    } else {
        unsigned_number(s)
    }
}

/// The number that a run of one digit or more stands for.
pub open spec fn unsigned_number(digits: Seq<char>) -> Option<nat> {
    if digits.len() > 0 && (forall|i: int| 0 <= i < digits.len() ==> is_digit(#[trigger] digits[i])) {
        Some(digits_value(digits))
    } else {
        None
    }
}

/// A run of digits stands for no less than any of its beginnings.
proof fn lemma_digits_value_grows(s: Seq<char>, k: int)
    requires
        0 <= k <= s.len(),
    ensures
        digits_value(s.take(k)) <= digits_value(s),
    decreases s.len() - k,
{
    if k == s.len() {
        assert(s.take(k) =~= s);
    } else {
        lemma_digits_value_grows(s.drop_last(), k);
        assert(s.drop_last().take(k) =~= s.take(k));
    }
}

/// Reads a decimal numeral. A text that is none, or one that stands for more
/// than `u64` holds, gives `None`.
pub fn parse_number(s: &str) -> (n: Option<u64>)
    ensures
        n == parsed_u64(s@),
{
    let len: usize = s.unicode_len();
    let first: usize = if len > 0 && s.get_char(0) == '+' {
        1
    } else {
        0
    };
    if first == len {
        return None;
    }
    let ghost digits = s@.skip(first as int);
    assert(first == 0 ==> digits =~= s@);
    assert(parsed_number(s@) == unsigned_number(digits));
    assert(digits.take(0) =~= Seq::<char>::empty());
    let mut value: u64 = 0;
    let mut i: usize = first;
    while i < len
        invariant
            len == s@.len(),
            first <= i <= len,
            first < len,
            digits == s@.skip(first as int),
            parsed_number(s@) == unsigned_number(digits),
            forall|j: int| 0 <= j < i - first ==> is_digit(#[trigger] digits[j]),
            value == digits_value(digits.take(i - first)),
        decreases len - i,
    {
        let c = s.get_char(i);
        assert(digits[i - first] == c);
        if !('0' <= c && c <= '9') {
            assert(!is_digit(digits[i - first]));
            return None;
        }
        let d: u64 = (c as u32 - '0' as u32) as u64;
        proof {
            let upto = digits.take(i - first + 1);
            assert(upto.drop_last() =~= digits.take(i - first));
            assert(upto.last() == c);
            assert(digits_value(upto) == value * 10 + d);
            lemma_digits_value_grows(digits, i - first + 1);
        }
        if value > (u64::MAX - d) / 10 {
            assert(digits_value(digits) > u64::MAX);
            return None;
        }
        value = value * 10 + d;
        i += 1;
    }
    assert(digits.take(len - first) =~= digits);
    Some(value)
}

/// Reads a decimal numeral that a `usize` holds. Any other text gives `None`.
pub fn parse_count(s: &str) -> (n: Option<usize>)
    ensures
        n == parsed_count(s@),
{
    match parse_number(s) {
        Some(value) => if value <= usize::MAX as u64 {
            Some(value as usize)
        } else {
            None
        },
        None => None,
    }
}

/// How many characters stand before the first line feed of `s`.
pub open spec fn line_end(s: Seq<char>) -> nat
    decreases s.len(),
{
    if s.len() == 0 || s[0] == '\n' {
        0
    } else {
        1 + line_end(s.skip(1))
    }
}

/// A line without the carriage return that stood before its line feed.
pub open spec fn without_return(line: Seq<char>) -> Seq<char> {
    if line.len() > 0 && line.last() == '\r' {
        line.drop_last()
    } else {
        line
    }
}

/// The lines of a text. A line ends with a line feed, or with a carriage return
/// and a line feed; neither belongs to the line. The last line needs no ending,
/// and an ending at the end of the text starts no further line.
pub open spec fn lines_of(s: Seq<char>) -> Seq<Seq<char>>
    decreases s.len(),
{
    if s.len() == 0 {
        Seq::empty()
    } else {
        let k = line_end(s) as int;
        if k >= s.len() {
            seq![s]
        } else {
            seq![without_return(s.take(k))] + lines_of(s.skip(k + 1))
        }
    }
}

/// A stretch without line feed that ends at a line feed, or at the end of the
/// text, is the first line's extent.
proof fn lemma_line_end(s: Seq<char>, k: int)
    requires
        0 <= k <= s.len(),
        forall|j: int| 0 <= j < k ==> s[j] != '\n',
        k == s.len() || s[k] == '\n',
    ensures
        line_end(s) == k,
    decreases k,
{
    if k > 0 {
        lemma_line_end(s.skip(1), k - 1);
    }
}

/// Splits a text into its lines.
pub fn split_lines(text: &str) -> (lines: Vec<String>)
    ensures
        texts(lines@) == lines_of(text@),
{
    let chars = to_chars(text);
    let len: usize = chars.len();
    let mut lines: Vec<String> = Vec::new();
    let mut start: usize = 0;
    assert(text@.skip(0) =~= text@);
    while start < len
        invariant
            chars@ == text@,
            len == text@.len(),
            start <= len,
            texts(lines@) + lines_of(text@.skip(start as int)) == lines_of(text@),
        decreases len - start,
    {
        let ghost rest = text@.skip(start as int);
        let ghost before = texts(lines@);
        let mut end: usize = start;
        while end < len && chars[end] != '\n'
            invariant
                chars@ == text@,
                len == text@.len(),
                start <= end <= len,
                forall|j: int| start <= j < end ==> text@[j] != '\n',
            decreases len - end,
        {
            end += 1;
        }
        proof {
            lemma_line_end(rest, end - start);
        }
        if end == len {
            let line = slice_text(&chars, start, len);
            assert(line@ =~= rest);
            lines.push(line);
            assert(texts(lines@) =~= before + seq![rest]);
            return lines;
        }
        let stop: usize = if end > start && chars[end - 1] == '\r' {
            end - 1
        } else {
            end
        };
        let line = slice_text(&chars, start, stop);
        proof {
            let full = rest.take(end - start);
            assert(full =~= text@.subrange(start as int, end as int));
            if end > start {
                assert(full.last() == text@[end - 1]);
            }
            assert(line@ =~= without_return(full));
            assert(rest.skip(end - start + 1) =~= text@.skip(end + 1));
            assert(before + (seq![line@] + lines_of(text@.skip(end + 1))) =~= (before + seq![
                line@,
            ]) + lines_of(text@.skip(end + 1)));
        }
        lines.push(line);
        assert(texts(lines@) =~= before + seq![line@]);
        start = end + 1;
    }
    assert(texts(lines@) + lines_of(text@.skip(start as int)) =~= texts(lines@));
    lines
}

/// The number that a numeral stands for, where a `u64` holds it.
pub open spec fn parsed_u64(s: Seq<char>) -> Option<u64> {
    match parsed_number(s) {
        Some(value) => if value <= u64::MAX {
            Some(value as u64)
        } else {
            None
        },
        None => None,
    }
}

/// The number that a numeral stands for, where a `usize` holds it.
pub open spec fn parsed_count(s: Seq<char>) -> Option<usize> {
    match parsed_number(s) {
        Some(value) => if value <= usize::MAX {
            Some(value as usize)
        } else {
            None
        },
        None => None,
    }
}

/// `s` without the copies of `mark` at its head.
pub open spec fn stripped_start(s: Seq<char>, mark: char) -> Seq<char>
    decreases s.len(),
{
    if s.len() > 0 && s[0] == mark {
        stripped_start(s.skip(1), mark)
    } else {
        s
    }
}

/// `s` without the copies of `mark` at its tail.
pub open spec fn stripped_end(s: Seq<char>, mark: char) -> Seq<char>
    decreases s.len(),
{
    if s.len() > 0 && s.last() == mark {
        stripped_end(s.drop_last(), mark)
    } else {
        s
    }
}

/// `s` without the copies of `mark` at either end.
pub open spec fn stripped(s: Seq<char>, mark: char) -> Seq<char> {
    stripped_end(stripped_start(s, mark), mark)
}

/// Removing marks from the head step by step reaches the same text as removing them at once.
proof fn lemma_stripped_start_skip(s: Seq<char>, mark: char, k: int)
    requires
        0 <= k <= s.len(),
        forall|j: int| 0 <= j < k ==> s[j] == mark,
    ensures
        stripped_start(s, mark) == stripped_start(s.skip(k), mark),
    decreases k,
{
    if k == 0 {
        assert(s.skip(0) =~= s);
    } else {
        lemma_stripped_start_skip(s.skip(1), mark, k - 1);
        assert(s.skip(1).skip(k - 1) =~= s.skip(k));
    }
}

/// Removing marks from the tail step by step reaches the same text as removing them at once.
proof fn lemma_stripped_end_take(s: Seq<char>, mark: char, k: int)
    requires
        0 <= k <= s.len(),
        forall|j: int| k <= j < s.len() ==> s[j] == mark,
    ensures
        stripped_end(s, mark) == stripped_end(s.take(k), mark),
    decreases s.len() - k,
{
    if k == s.len() {
        assert(s.take(k) =~= s);
    } else {
        lemma_stripped_end_take(s.drop_last(), mark, k);
        assert(s.drop_last().take(k) =~= s.take(k));
    }
}

/// Copies `s` without the copies of `mark` at either end.
pub fn strip_text(s: &str, mark: char) -> (t: String)
    ensures
        t@ == stripped(s@, mark),
{
    let chars = to_chars(s);
    let len: usize = chars.len();
    let mut start: usize = 0;
    while start < len && chars[start] == mark
        invariant
            chars@ == s@,
            len == s@.len(),
            start <= len,
            forall|j: int| 0 <= j < start ==> s@[j] == mark,
        decreases len - start,
    {
        start += 1;
    }
    let mut end: usize = len;
    while end > start && chars[end - 1] == mark
        invariant
            chars@ == s@,
            len == s@.len(),
            start <= end <= len,
            forall|j: int| end <= j < len ==> s@[j] == mark,
        decreases end,
    {
        end -= 1;
    }
    proof {
        let rest = s@.skip(start as int);
        lemma_stripped_start_skip(s@, mark, start as int);
        assert(stripped_start(s@, mark) == rest);
        lemma_stripped_end_take(rest, mark, end - start);
        assert(rest.take(end - start) =~= s@.subrange(start as int, end as int));
        let kept = s@.subrange(start as int, end as int);
        assert(stripped_end(kept, mark) == kept) by {
            if kept.len() > 0 {
                assert(kept.last() == s@[end - 1]);
            }
        }
    }
    slice_text(&chars, start, end)
}

/// `s` without the copies of `prefix` that it begins with.
pub open spec fn without_leading(s: Seq<char>, prefix: Seq<char>) -> Seq<char>
    decreases s.len(),
{
    if prefix.len() > 0 && has_prefix(s, prefix) {
        without_leading(s.skip(prefix.len() as int), prefix)
    } else {
        s
    }
}

/// Copies `s` without the copies of `prefix` that it begins with.
pub fn strip_leading(s: &str, prefix: &str) -> (t: String)
    ensures
        t@ == without_leading(s@, prefix@),
{
    let step: usize = prefix.unicode_len();
    let mut rest: &str = s;
    if step == 0 {
        return String::from_str(s);
    }
    loop
        invariant
            step == prefix@.len(),
            step > 0,
            without_leading(s@, prefix@) == without_leading(rest@, prefix@),
        decreases rest@.len(),
    {
        if !starts_with(rest, prefix) {
            return String::from_str(rest);
        }
        let size: usize = rest.unicode_len();
        rest = rest.substring_char(step, size);
    }
}

/// Where `part` first occurs in `s`, if it occurs.
pub open spec fn first_occurrence(s: Seq<char>, part: Seq<char>) -> Option<nat>
    decreases s.len(),
{
    if has_prefix(s, part) {
        Some(0)
    } else if s.len() == 0 {
        None
    } else {
        match first_occurrence(s.skip(1), part) {
            Some(at) => Some(at + 1),
            None => None,
        }
    }
}

/// Where `part` occurs at `at` and nowhere before, `at` is its first occurrence;
/// where it occurs nowhere from the start to the end, it has none.
proof fn lemma_first_occurrence(s: Seq<char>, part: Seq<char>, at: int)
    requires
        0 <= at <= s.len(),
        forall|j: int| 0 <= j < at ==> !has_prefix(#[trigger] s.skip(j), part),
    ensures
        first_occurrence(s, part) == match first_occurrence(s.skip(at), part) {
            Some(k) => Some((k + at) as nat),
            None => None,
        },
    decreases at,
{
    if at == 0 {
        assert(s.skip(0) =~= s);
    } else {
        assert(s.skip(0) =~= s);
        assert forall|j: int| 0 <= j < at - 1 implies !has_prefix(
            #[trigger] s.skip(1).skip(j),
            part,
        ) by {
            assert(s.skip(1).skip(j) =~= s.skip(j + 1));
        }
        lemma_first_occurrence(s.skip(1), part, at - 1);
        assert(s.skip(1).skip(at - 1) =~= s.skip(at));
    }
}

/// Finds where a text first occurs in another.
pub fn find_text(s: &str, part: &str) -> (found: Option<usize>)
    ensures
        match found {
            Some(at) => first_occurrence(s@, part@) == Some(at as nat),
            None => first_occurrence(s@, part@) is None,
        },
{
    let chars = to_chars(s);
    let len: usize = chars.len();
    let size: usize = part.unicode_len();
    let mut at: usize = 0;
    loop
        invariant
            chars@ == s@,
            len == s@.len(),
            size == part@.len(),
            at <= len,
            forall|j: int| 0 <= j < at ==> !has_prefix(#[trigger] s@.skip(j), part@),
        decreases len - at,
    {
        proof {
            lemma_first_occurrence(s@, part@, at as int);
        }
        let ghost rest = s@.skip(at as int);
        if size <= len - at {
            let mut i: usize = 0;
            while i < size && chars[at + i] == part.get_char(i)
                invariant
                    chars@ == s@,
                    len == s@.len(),
                    size == part@.len(),
                    at + size <= len,
                    i <= size,
                    rest == s@.skip(at as int),
                    forall|j: int| 0 <= j < i ==> rest[j] == part@[j],
                decreases size - i,
            {
                i += 1;
            }
            if i == size {
                assert(rest.take(size as int) =~= part@);
                return Some(at);
            }
            assert(rest.take(size as int)[i as int] != part@[i as int]);
        }
        assert(!has_prefix(rest, part@));
        if at == len {
            return None;
        }
        at += 1;
    }
}

/// A text begins, at its first occurrence in another, where that occurrence says.
pub proof fn lemma_occurs_at_first(s: Seq<char>, part: Seq<char>)
    requires
        first_occurrence(s, part) is Some,
    ensures
        first_occurrence(s, part)->0 <= s.len(),
        has_prefix(s.skip(first_occurrence(s, part)->0 as int), part),
    decreases s.len(),
{
    if has_prefix(s, part) {
        assert(s.skip(0) =~= s);
    } else {
        lemma_occurs_at_first(s.skip(1), part);
        let at = first_occurrence(s.skip(1), part)->0 as int;
        assert(s.skip(1).skip(at) =~= s.skip(at + 1));
    }
}

} // verus!
