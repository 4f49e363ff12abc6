//! Scanning runs of characters: the character classes of the document
//! grammar and the splitting of a text into lines and fields.
use vstd::prelude::*;
use crate::text::{is_white_space, is_white_space_char};

verus! {

/// The characters outside ASCII that `\w` of a regular expression matches.
pub uninterp spec fn non_ascii_word(c: char) -> bool;

/// Unicode's word characters, as `\w` of a regular expression has them:
/// `Alphabetic`, `Join_Control`, and the general categories
/// `Decimal_Number`, `Mark` and `Connector_Punctuation`; within ASCII these
/// are the letters, the digits and `_`.
pub open spec fn is_word(c: char) -> bool {
    if (c as u32) < 0x80 {
        ('0' <= c && c <= '9') || ('a' <= c && c <= 'z') || ('A' <= c && c <= 'Z') || c == '_'
    } else {
        non_ascii_word(c)
    }
}

/// The characters outside ASCII that belong to Unicode's general category
/// `Decimal_Number`.
pub uninterp spec fn non_ascii_decimal_digit(c: char) -> bool;

/// Unicode's decimal digits, as `\d` of a regular expression has them: the
/// general category `Decimal_Number`, which holds `0` to `9` and no other
/// ASCII character.
pub open spec fn is_decimal_digit(c: char) -> bool {
    if (c as u32) < 0x80 {
        '0' <= c && c <= '9'
    } else {
        non_ascii_decimal_digit(c)
    }
}

/// Asks the `regex` crate whether `\w` matches `c` alone: within ASCII it
/// matches the letters, the digits and `_`, beyond it the Unicode table
/// decides, by `c` alone.
#[verifier::external_body]
pub fn word_char(c: char) -> (b: bool)
    ensures
        b == is_word(c),
        (c as u32) >= 0x80 ==> b == non_ascii_word(c),
{
    let mut buf = [0u8; 4];
    match regex::Regex::new(r"\A\w\z") {
        Ok(re) => re.is_match(c.encode_utf8(&mut buf)),
        Err(_) => false,
    }
}

/// Asks the `regex` crate whether `\d` matches `c` alone: within ASCII it
/// matches `0` to `9`, beyond it the Unicode table decides, by `c` alone.
#[verifier::external_body]
pub fn decimal_digit_char(c: char) -> (b: bool)
    ensures
        b == is_decimal_digit(c),
        (c as u32) >= 0x80 ==> b == non_ascii_decimal_digit(c),
{
    let mut buf = [0u8; 4];
    match regex::Regex::new(r"\A\d\z") {
        Ok(re) => re.is_match(c.encode_utf8(&mut buf)),
        Err(_) => false,
    }
}

/// The character classes of the document grammar.
#[derive(Clone, Copy, PartialEq, Eq, Structural)]
pub enum CharClass {
    /// `\s`
    Space,
    /// `\w`
    Word,
    /// `[\w:]`
    WordOrColon,
    /// `[^\s{]`
    NotSpaceOrBrace,
    /// `[^\s=]`
    NotSpaceOrEquals,
    /// `[0-9]`
    AsciiDigit,
}

pub open spec fn in_class(c: char, class: CharClass) -> bool {
    match class {
        CharClass::Space => is_white_space(c),
        CharClass::Word => is_word(c),
        CharClass::WordOrColon => is_word(c) || c == ':',
        CharClass::NotSpaceOrBrace => !is_white_space(c) && c != '{',
        CharClass::NotSpaceOrEquals => !is_white_space(c) && c != '=',
        CharClass::AsciiDigit => '0' <= c && c <= '9',
    }
}

pub fn in_class_char(c: char, class: CharClass) -> (b: bool)
    ensures
        b == in_class(c, class),
{
    match class {
        CharClass::Space => is_white_space_char(c),
        CharClass::Word => word_char(c),
        CharClass::WordOrColon => c == ':' || word_char(c),
        CharClass::NotSpaceOrBrace => !is_white_space_char(c) && c != '{',
        CharClass::NotSpaceOrEquals => !is_white_space_char(c) && c != '=',
        CharClass::AsciiDigit => '0' <= c && c <= '9',
    }
}

/// The end of the longest run of characters of `class` that starts at `i`.
pub open spec fn run_end(t: Seq<char>, i: int, class: CharClass) -> int
    decreases t.len() - i,
{
    if 0 <= i < t.len() && in_class(t[i], class) {
        run_end(t, i + 1, class)
    } else {
        i
    }
}

pub proof fn lemma_run_end_bounds(t: Seq<char>, i: int, class: CharClass)
    requires
        0 <= i <= t.len(),
    ensures
        i <= run_end(t, i, class) <= t.len(),
        forall|k: int| i <= k < run_end(t, i, class) ==> in_class(#[trigger] t[k], class),
        run_end(t, i, class) < t.len() ==> !in_class(t[run_end(t, i, class)], class),
    decreases t.len() - i,
{
    if i < t.len() && in_class(t[i], class) {
        lemma_run_end_bounds(t, i + 1, class);
    }
}

/// Where the longest run of `class` that starts at `i` ends.
pub fn scan_run(t: &[char], i: usize, class: CharClass) -> (j: usize)
    requires
        i <= t@.len(),
    ensures
        j == run_end(t@, i as int, class),
        i <= j <= t@.len(),
{
    proof { lemma_run_end_bounds(t@, i as int, class); }
    let mut j = i;
    while j < t.len() && in_class_char(t[j], class)
        invariant
            i <= j <= t@.len(),
            run_end(t@, i as int, class) == run_end(t@, j as int, class),
        decreases t@.len() - j,
    {
        j = j + 1;
    }
    j
}

/// The start of the longest run of `class` that ends at `k`.
pub open spec fn run_start(t: Seq<char>, k: int, class: CharClass) -> int
    decreases k,
{
    if 0 < k <= t.len() && in_class(t[k - 1], class) {
        run_start(t, k - 1, class)
    } else {
        k
    }
}

pub proof fn lemma_run_start_bounds(t: Seq<char>, k: int, class: CharClass)
    requires
        0 <= k <= t.len(),
    ensures
        0 <= run_start(t, k, class) <= k,
        forall|m: int| run_start(t, k, class) <= m < k ==> in_class(#[trigger] t[m], class),
        run_start(t, k, class) > 0 ==> !in_class(t[run_start(t, k, class) - 1], class),
    decreases k,
{
    if 0 < k && in_class(t[k - 1], class) {
        lemma_run_start_bounds(t, k - 1, class);
    }
}

/// The start of a run of Unicode decimal digits that ends at `k`.
pub open spec fn digits_start(t: Seq<char>, k: int) -> int
    decreases k,
{
    if 0 < k <= t.len() && is_decimal_digit(t[k - 1]) {
        digits_start(t, k - 1)
    } else {
        k
    }
}

pub proof fn lemma_digits_start_bounds(t: Seq<char>, k: int)
    requires
        0 <= k <= t.len(),
    ensures
        0 <= digits_start(t, k) <= k,
        forall|m: int| digits_start(t, k) <= m < k ==> is_decimal_digit(#[trigger] t[m]),
        digits_start(t, k) > 0 ==> !is_decimal_digit(t[digits_start(t, k) - 1]),
    decreases k,
{
    if 0 < k && is_decimal_digit(t[k - 1]) {
        lemma_digits_start_bounds(t, k - 1);
    }
}

/// The start of the run of Unicode decimal digits that ends at `k`.
pub fn scan_digits_back(t: &[char], k: usize) -> (a: usize)
    requires
        k <= t@.len(),
    ensures
        a == digits_start(t@, k as int),
        a <= k,
{
    proof { lemma_digits_start_bounds(t@, k as int); }
    let mut a = k;
    while a > 0 && decimal_digit_char(t[a - 1])
        invariant
            a <= k <= t@.len(),
            digits_start(t@, k as int) == digits_start(t@, a as int),
        decreases a,
    {
        a = a - 1;
    }
    a
}

// ---------------------------------------------------------------------------
// Lines

/// The first line feed at or after `i`, or the end of `s`.
pub open spec fn newline_from(s: Seq<char>, i: int) -> int
    decreases s.len() - i,
{
    if i < 0 || i >= s.len() {
        s.len() as int
    } else if s[i] == '\n' {
        i
    } else {
        newline_from(s, i + 1)
    }
}

pub proof fn lemma_newline_from(s: Seq<char>, i: int)
    requires
        0 <= i <= s.len(),
    ensures
        i <= newline_from(s, i) <= s.len(),
        newline_from(s, i) < s.len() ==> s[newline_from(s, i)] == '\n',
        forall|k: int| i <= k < newline_from(s, i) ==> #[trigger] s[k] != '\n',
    decreases s.len() - i,
{
    if i < s.len() && s[i] != '\n' {
        lemma_newline_from(s, i + 1);
    }
}

/// The end of the text of the line that starts at `i`: before its line feed,
/// and before a carriage return that directly precedes the line feed.
pub open spec fn line_text_end(s: Seq<char>, i: int) -> int {
    let j = newline_from(s, i);
    if j < s.len() && j > i && s[j - 1] == '\r' {
        j - 1
    } else {
        j
    }
}

/// The lines of `s` from position `i` on, as `str::lines` gives them.
pub open spec fn lines_from(s: Seq<char>, i: int) -> Seq<Seq<char>>
    decreases s.len() - i,
{
    if i < 0 || i >= s.len() {
        seq![]
    } else {
        let j = newline_from(s, i);
        let head = seq![s.subrange(i, line_text_end(s, i))];
        if i <= j < s.len() {
            head + lines_from(s, j + 1)
        } else {
            head
        }
    }
}

/// The lines of `s`, as `str::lines` gives them.
pub open spec fn lines_of(s: Seq<char>) -> Seq<Seq<char>> {
    lines_from(s, 0)
}

/// The bounds of the line that starts at `i`: where its text ends and where
/// the next line starts.
pub fn next_line(s: &[char], i: usize) -> (r: (usize, usize))
    requires
        i < s@.len(),
    ensures
        r.0 == line_text_end(s@, i as int),
        r.1 == if newline_from(s@, i as int) < s@.len() { newline_from(s@, i as int) + 1 } else { s@.len() as int },
        i <= r.0 <= r.1,
        i < r.1,
        r.1 <= s@.len(),
        r.0 <= s@.len(),
        lines_from(s@, i as int) == seq![s@.subrange(i as int, r.0 as int)] + lines_from(s@, r.1 as int),
{
    proof { lemma_newline_from(s@, i as int); }
    let mut j = i;
    while j < s.len() && s[j] != '\n'
        invariant
            i <= j <= s@.len(),
            newline_from(s@, i as int) == newline_from(s@, j as int),
        decreases s@.len() - j,
    {
        j = j + 1;
    }
    let end = if j < s.len() && j > i && s[j - 1] == '\r' { j - 1 } else { j };
    let next = if j < s.len() { j + 1 } else { j };
    (end, next)
}

/// The lines of a text, as `str::lines` splits it: each as the bounds of
/// its text.
pub fn line_bounds(s: &[char]) -> (r: Vec<(usize, usize)>)
    ensures
        r@.len() == lines_of(s@).len(),
        forall|k: int| 0 <= k < r@.len() ==> #[trigger] r@[k].0 <= r@[k].1 <= s@.len()
            && s@.subrange(r@[k].0 as int, r@[k].1 as int) == lines_of(s@)[k],
{
    let mut r: Vec<(usize, usize)> = Vec::new();
    let mut i: usize = 0;
    while i < s.len()
        invariant
            i <= s@.len(),
            lines_of(s@) == r@.map_values(|p: (usize, usize)| s@.subrange(p.0 as int, p.1 as int)) + lines_from(s@, i as int),
            forall|k: int| 0 <= k < r@.len() ==> #[trigger] r@[k].0 <= r@[k].1 <= s@.len(),
        decreases s@.len() - i,
    {
        let (end, next) = next_line(s, i);
        let ghost before = r@;
        r.push((i, end));
        assert(r@.map_values(|p: (usize, usize)| s@.subrange(p.0 as int, p.1 as int))
            =~= before.map_values(|p: (usize, usize)| s@.subrange(p.0 as int, p.1 as int)).push(s@.subrange(i as int, end as int)));
        i = next;
    }
    let ghost shown = r@.map_values(|p: (usize, usize)| s@.subrange(p.0 as int, p.1 as int));
    assert(lines_of(s@) =~= shown);
    assert forall|k: int| 0 <= k < r@.len() implies #[trigger] r@[k].0 <= r@[k].1 <= s@.len()
        && s@.subrange(r@[k].0 as int, r@[k].1 as int) == lines_of(s@)[k] by {
        assert(shown[k] == s@.subrange(r@[k].0 as int, r@[k].1 as int));
    }
    r
}

} // verus!
