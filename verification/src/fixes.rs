//! Writing line numbers into a specification document: each declaration
//! that an audit found without its line numbers, or with the wrong ones,
//! gets ` (L<first>-<last>)` in place of what it had.
use vstd::prelude::*;
use crate::auditor::{range_label, range_label_string, AuditIssue, AuditIssueType, IssueView, issues_view};
use crate::i18n::{catalog_view, get_message, has_english, render, LocaleCatalog, MessageKey};
use crate::report::byte_len;
use crate::i18n::{decimal, digit_char, push_decimal};
use crate::scan::{digits_start, is_decimal_digit, lines_of, line_bounds};
use crate::spec_doc::{
    all_ascii_digits, bullet_item, declared_range, find_line_suffix, line_suffix, numeral_value,
    slice_range, suffix_numbers_parse,
};
use crate::text::{is_white_space, string_of, string_of_all, trim, trim_end, trim_start};

verus! {

/// `line` without a line-number suffix `(L..)` at its end, and without the
/// whitespace around that suffix and at its end.
pub open spec fn cleaned_line(line: Seq<char>) -> Seq<char> {
    let u = trim_end(line);
    match line_suffix(u) {
        Some((start, _, _)) => trim_end(u.subrange(0, start)),
        None => u,
    }
}

/// ` (L<first>-<last>)`.
pub open spec fn range_suffix(r: (usize, usize)) -> Seq<char> {
    seq![' ', '('] + range_label(r) + seq![')']
}

/// `line` with its line numbers set to `r`.
pub open spec fn injected_line(line: Seq<char>, r: (usize, usize)) -> Seq<char> {
    cleaned_line(line) + range_suffix(r)
}

/// Where the trailing whitespace of `v[lo..hi]` starts.
pub fn trim_end_bound(v: &[char], lo: usize, hi: usize) -> (j: usize)
    requires
        lo <= hi <= v@.len(),
    ensures
        lo <= j <= hi,
        v@.subrange(lo as int, j as int) == trim_end(v@.subrange(lo as int, hi as int)),
{
    let mut j = hi;
    while j > lo && crate::text::is_white_space_char(v[j - 1])
        invariant
            lo <= j <= hi <= v@.len(),
            trim_end(v@.subrange(lo as int, hi as int)) == trim_end(v@.subrange(lo as int, j as int)),
        decreases j - lo,
    {
        assert(v@.subrange(lo as int, j as int).drop_last() == v@.subrange(lo as int, j - 1));
        j = j - 1;
    }
    assert(trim_end(v@.subrange(lo as int, j as int)) == v@.subrange(lo as int, j as int));
    j
}

/// Sets the line numbers of the declaration `line` to `r`: a line-number
/// suffix it ends with gives way to ` (L<first>-<last>)`.
pub fn inject_line_range(line: &str, r: (usize, usize)) -> (s: String)
    ensures
        s@ == injected_line(line@, r),
{
    let v = crate::text::chars_of(line);
    let u_end = trim_end_bound(v.as_slice(), 0, v.len());
    assert(v@.subrange(0, v@.len() as int) == v@);
    let ghost u = trim_end(line@);
    let clean_end = match find_line_suffix(v.as_slice(), 0, u_end) {
        Some((start, _, _, _)) => {
            let e = trim_end_bound(v.as_slice(), 0, start);
            assert(u.subrange(0, start as int) == v@.subrange(0, start as int));
            e
        },
        None => u_end,
    };
    assert(v@.subrange(0, clean_end as int) == cleaned_line(line@));
    let mut out = slice_range(v.as_slice(), 0, clean_end);
    out.push(' ');
    out.push('(');
    out.push('L');
    push_decimal(&mut out, r.0);
    out.push('-');
    push_decimal(&mut out, r.1);
    out.push(')');
    assert(out@ =~= injected_line(line@, r));
    string_of_all(out.as_slice())
}

// ---------------------------------------------------------------------------
// A whole document

/// A finding about the line numbers of a declaration.
pub open spec fn is_line_issue(t: AuditIssueType) -> bool {
    t == AuditIssueType::LineNumberMissing || t == AuditIssueType::LineNumberMismatch
}

/// `lines` after the fix that finding `i` calls for: a finding about line
/// numbers that knows where the code stands sets those numbers on the line
/// it names, where the document has that line.
pub open spec fn apply_fix(lines: Seq<Seq<char>>, i: IssueView) -> Seq<Seq<char>> {
    let idx = if i.spec_line > 0 { i.spec_line - 1 } else { 0 };
    if is_line_issue(i.issue_type) && idx < lines.len() && i.code_line_range is Some {
        lines.update(idx, injected_line(lines[idx], i.code_line_range->0))
    } else {
        lines
    }
}

pub open spec fn apply_fixes(lines: Seq<Seq<char>>, issues: Seq<IssueView>) -> Seq<Seq<char>>
    decreases issues.len(),
{
    if issues.len() == 0 {
        lines
    } else {
        apply_fix(apply_fixes(lines, issues.drop_last()), issues.last())
    }
}

/// Lines joined by line feeds.
pub open spec fn join_lines(ls: Seq<Seq<char>>) -> Seq<char>
    decreases ls.len(),
{
    if ls.len() == 0 {
        seq![]
    } else if ls.len() == 1 {
        ls[0]
    } else {
        join_lines(ls.drop_last()) + seq!['\n'] + ls.last()
    }
}

/// The document `text` after the fixes that `issues` call for, its lines
/// joined by line feeds.
pub open spec fn fixed_document(text: Seq<char>, issues: Seq<IssueView>) -> Seq<char> {
    join_lines(apply_fixes(lines_of(text), issues))
}

/// `true` when some finding is about line numbers.
pub fn has_line_issues(issues: &[AuditIssue]) -> (b: bool)
    ensures
        b == exists|k: int| 0 <= k < issues@.len() && is_line_issue(#[trigger] issues@[k].issue_type),
{
    let mut i: usize = 0;
    while i < issues.len()
        invariant
            i <= issues@.len(),
            forall|k: int| 0 <= k < i ==> !is_line_issue(#[trigger] issues@[k].issue_type),
        decreases issues@.len() - i,
    {
        let t = issues[i].issue_type;
        if t == AuditIssueType::LineNumberMissing || t == AuditIssueType::LineNumberMismatch {
            return true;
        }
        i = i + 1;
    }
    false
}

/// Writes the line numbers that `issues` call for into the document `text`.
pub fn fix_document(text: &str, issues: &[AuditIssue]) -> (s: String)
    ensures
        s@ == fixed_document(text@, issues_view(issues@)),
{
    let v = crate::text::chars_of(text);
    let bounds = line_bounds(v.as_slice());
    let ghost ls = lines_of(text@);
    let mut lines: Vec<String> = Vec::new();
    let mut k: usize = 0;
    while k < bounds.len()
        invariant
            k <= bounds@.len(),
            bounds@.len() == ls.len(),
            v@ == text@,
            ls == lines_of(v@),
            forall|m: int| 0 <= m < bounds@.len() ==> #[trigger] bounds@[m].0 <= bounds@[m].1 <= v@.len()
                && v@.subrange(bounds@[m].0 as int, bounds@[m].1 as int) == lines_of(v@)[m],
            lines@.len() == k,
            forall|m: int| 0 <= m < k ==> #[trigger] lines@[m]@ == ls[m],
        decreases bounds@.len() - k,
    {
        let (a, b) = bounds[k];
        lines.push(string_of(v.as_slice(), a, b));
        k = k + 1;
    }
    let ghost iv = issues_view(issues@);
    let mut i: usize = 0;
    while i < issues.len()
        invariant
            i <= issues@.len(),
            iv == issues_view(issues@),
            lines@.len() == apply_fixes(ls, iv.take(i as int)).len(),
            forall|m: int| 0 <= m < lines@.len() ==> #[trigger] lines@[m]@ == apply_fixes(ls, iv.take(i as int))[m],
        decreases issues@.len() - i,
    {
        let issue = &issues[i];
        assert(iv.take(i + 1).drop_last() == iv.take(i as int));
        assert(iv.take(i + 1).last() == issue@);
        let idx = if issue.spec_line > 0 { issue.spec_line - 1 } else { 0 };
        let t = issue.issue_type;
        if t == AuditIssueType::LineNumberMissing || t == AuditIssueType::LineNumberMismatch {
            if idx < lines.len() {
                if let Some(r) = issue.code_line_range {
                    let updated = inject_line_range(lines[idx].as_str(), r);
                    lines.set(idx, updated);
                }
            }
        }
        i = i + 1;
    }
    assert(iv.take(issues@.len() as int) == iv);
    let ghost fixed = apply_fixes(ls, iv);
    let mut out: Vec<char> = Vec::new();
    let mut j: usize = 0;
    while j < lines.len()
        invariant
            j <= lines@.len(),
            lines@.len() == fixed.len(),
            forall|m: int| 0 <= m < lines@.len() ==> #[trigger] lines@[m]@ == fixed[m],
            out@ == join_lines(fixed.take(j as int)),
        decreases lines@.len() - j,
    {
        let piece = crate::text::chars_of(lines[j].as_str());
        assert(fixed.take(j + 1).drop_last() == fixed.take(j as int));
        let ghost before = out@;
        if j > 0 {
            out.push('\n');
        }
        let mut c: usize = 0;
        while c < piece.len()
            invariant
                c <= piece@.len(),
                out@ == (if j > 0 { before + seq!['\n'] } else { before }) + piece@.take(c as int),
            decreases piece@.len() - c,
        {
            out.push(piece[c]);
            assert(piece@.take(c + 1) == piece@.take(c as int).push(piece@[c as int]));
            c = c + 1;
        }
        assert(piece@.take(piece@.len() as int) == piece@);
        proof {
            if j == 0 {
                assert(before =~= Seq::<char>::empty());
                assert(fixed.take(1)[0] == fixed[0]);
            }
        }
        assert(out@ =~= join_lines(fixed.take(j + 1)));
        j = j + 1;
    }
    assert(fixed.take(lines@.len() as int) == fixed);
    string_of_all(out.as_slice())
}

// ---------------------------------------------------------------------------
// The quick fix of one diagnostic

/// The edit that the quick fix of a diagnostic makes: it replaces the whole
/// line `line` with `new_text`.
pub struct LineEdit {
    pub line: u32,
    /// The byte length of the line as it stands.
    pub end_char: u32,
    pub new_text: String,
    pub title: String,
}

/// The quick fix of a finding of kind `t` shown on line `line` of the
/// document `content`: a finding about line numbers that knows where the
/// code stands rewrites that line with those numbers, under the title that
/// names them; no fix for any other finding, or past the document's end.
pub open spec fn planned_edit(
    catalog: Seq<(Seq<char>, Seq<(Seq<char>, Seq<char>)>)>,
    locale: Seq<char>,
    content: Seq<char>,
    t: AuditIssueType,
    code_range: Option<(usize, usize)>,
    line: u32,
) -> Option<(u32, u32, Seq<char>, Seq<char>)> {
    if is_line_issue(t) && code_range is Some && (line as int) < lines_of(content).len() {
        let l = lines_of(content)[line as int];
        let r = code_range->0;
        Some((line, (byte_len(l) as usize) as u32, injected_line(l, r), render(catalog, locale, "code_action_title"@, seq![range_label(r)])))
    } else {
        None
    }
}

pub fn line_number_edit(
    catalog: &LocaleCatalog,
    locale: &str,
    content: &str,
    t: AuditIssueType,
    code_range: Option<(usize, usize)>,
    line: u32,
) -> (r: Option<LineEdit>)
    requires
        has_english(catalog_view(*catalog)),
    ensures
        match r {
            Some(e) => planned_edit(catalog_view(*catalog), locale@, content@, t, code_range, line) == Some(
                (e.line, e.end_char, e.new_text@, e.title@),
            ),
            None => planned_edit(catalog_view(*catalog), locale@, content@, t, code_range, line) is None,
        },
{
    if !(t == AuditIssueType::LineNumberMissing || t == AuditIssueType::LineNumberMismatch) {
        return None;
    }
    let range = match code_range {
        Some(r) => r,
        None => {
            return None;
        },
    };
    let v = crate::text::chars_of(content);
    let bounds = line_bounds(v.as_slice());
    let idx = line as usize;
    if idx >= bounds.len() {
        return None;
    }
    let (a, b) = bounds[idx];
    let text = string_of(v.as_slice(), a, b);
    let end_char = text.as_str().len() as u32;
    let new_text = inject_line_range(text.as_str(), range);
    let label = range_label_string(range);
    let title = get_message(catalog, &MessageKey::CodeActionTitle(label), locale);
    Some(LineEdit { line, end_char, new_text, title })
}

// ---------------------------------------------------------------------------
// What reading the line back gives

/// A decimal numeral is made of ASCII digits, and its value is the number.
pub proof fn lemma_decimal_numeral(n: nat)
    ensures
        decimal(n).len() >= 1,
        all_ascii_digits(decimal(n)),
        numeral_value(decimal(n)) == n,
    decreases n,
{
    if n >= 10 {
        lemma_decimal_numeral(n / 10);
        let d = decimal(n / 10) + seq![digit_char(n % 10)];
        assert(d.drop_last() == decimal(n / 10));
        assert(n == (n / 10) * 10 + n % 10) by (nonlinear_arith);
        assert(digit_char(n % 10) as int - '0' as int == n % 10);
        assert(decimal(n) == d);
        assert(d.last() == digit_char(n % 10));
        assert(numeral_value(d) == numeral_value(d.drop_last()) * 10 + ((d.last() as int - '0' as int) as nat));
    } else {
        let d = seq![digit_char(n)];
        assert(d.drop_last() =~= Seq::<char>::empty());
        assert(digit_char(n) as int - '0' as int == n);
        assert(decimal(n) == d);
        assert(numeral_value(d) == numeral_value(d.drop_last()) * 10 + ((d.last() as int - '0' as int) as nat));
    }
}

/// A run of decimal digits from `m` to `k` that nothing decimal precedes
/// starts at `m`.
proof fn lemma_digits_run(t: Seq<char>, m: int, k: int)
    requires
        0 <= m <= k <= t.len(),
        forall|i: int| m <= i < k ==> is_decimal_digit(#[trigger] t[i]),
        m == 0 || !is_decimal_digit(t[m - 1]),
    ensures
        digits_start(t, k) == m,
    decreases k - m,
{
    if k > m {
        lemma_digits_run(t, m, k - 1);
    }
}

/// `(L<first>-<last>)` at the end of a text is read as its line-number suffix,
/// whatever precedes it.
proof fn lemma_suffix_after(p: Seq<char>, r: (usize, usize))
    ensures
        line_suffix(p + seq!['('] + range_label(r) + seq![')']) == Some(
            (p.len() as int, decimal(r.0 as nat), Some(decimal(r.1 as nat))),
        ),
{
    let da = decimal(r.0 as nat);
    let db = decimal(r.1 as nat);
    lemma_decimal_numeral(r.0 as nat);
    lemma_decimal_numeral(r.1 as nat);
    let t = p + seq!['('] + range_label(r) + seq![')'];
    let n = p.len() as int;
    assert(t =~= p + seq!['(', 'L'] + da + seq!['-'] + db + seq![')']);
    let k = t.len() - 1;
    let a = n + 2 + da.len() + 1;
    let b = n + 2;
    assert(k == a + db.len());
    assert forall|i: int| a <= i < k implies is_decimal_digit(#[trigger] t[i]) by {
        assert(t[i] == db[i - a]);
    }
    assert(t[a - 1] == '-');
    lemma_digits_run(t, a, k);
    assert forall|i: int| b <= i < a - 1 implies is_decimal_digit(#[trigger] t[i]) by {
        assert(t[i] == da[i - b]);
    }
    assert(t[b - 1] == 'L');
    assert(t[b - 2] == '(');
    lemma_digits_run(t, b, a - 1);
    assert(t.subrange(b, a - 1) =~= da);
    assert(t.subrange(a, k) =~= db);
}

/// Leading whitespace of a concatenation.
proof fn lemma_trim_start_concat(x: Seq<char>, y: Seq<char>)
    ensures
        trim_start(x + y) == if trim_start(x).len() > 0 {
            trim_start(x) + y
        } else {
            trim_start(y)
        },
    decreases x.len(),
{
    if x.len() > 0 {
        if is_white_space(x[0]) {
            assert((x + y).drop_first() =~= x.drop_first() + y);
            lemma_trim_start_concat(x.drop_first(), y);
        }
    } else {
        assert(x + y =~= y);
    }
}

pub proof fn lemma_trim_end_idempotent(s: Seq<char>)
    ensures
        trim_end(trim_end(s)) == trim_end(s),
    decreases s.len(),
{
    if s.len() > 0 && is_white_space(s.last()) {
        lemma_trim_end_idempotent(s.drop_last());
    }
}

/// The text `p + (L..)` trimmed at its start is again some text followed
/// by the same suffix.
proof fn lemma_trim_keeps_suffix(p: Seq<char>, r: (usize, usize)) -> (q: Seq<char>)
    ensures
        trim(p + seq!['('] + range_label(r) + seq![')']) == q + seq!['('] + range_label(r) + seq![')'],
        q.len() == 0 || !is_white_space(q[0]),
        q.len() == 0 ==> trim(p + seq!['('] + range_label(r) + seq![')'])[0] == '(',
{
    let core = seq!['('] + range_label(r) + seq![')'];
    assert(p + seq!['('] + range_label(r) + seq![')'] =~= p + core);
    lemma_trim_start_concat(p, core);
    lemma_trim_start_idempotent(p);
    assert(trim_start(core) == core);
    let q = if trim_start(p).len() > 0 { trim_start(p) } else { seq![] };
    let w = q + core;
    assert(trim_start(p + core) =~= w);
    assert(w.last() == ')');
    assert(trim_end(w) == w);
    if q.len() == 0 {
        assert(w =~= core);
    }
    q
}

/// Law: a line whose line numbers were set to `r` declares `r` when it is
/// read back, as a whole and as the item of a bullet, and its numbers can
/// be read.
pub proof fn lemma_injected_range_reads_back(line: Seq<char>, r: (usize, usize))
    ensures
        declared_range(trim(injected_line(line, r))) == Some(r),
        suffix_numbers_parse(trim(injected_line(line, r))),
        bullet_item(injected_line(line, r)) matches Some(item) ==> declared_range(trim(item)) == Some(r)
            && suffix_numbers_parse(trim(item)),
        crate::headings::heading_range(injected_line(line, r)) == Some(r),
{
    let core = seq!['('] + range_label(r) + seq![')'];
    let c = cleaned_line(line);
    let x = injected_line(line, r);
    let p = c + seq![' '];
    assert(x =~= p + seq!['('] + range_label(r) + seq![')']);
    let q = lemma_trim_keeps_suffix(p, r);
    lemma_suffix_after(q, r);
    lemma_decimal_numeral(r.0 as nat);
    lemma_decimal_numeral(r.1 as nat);
    let t = trim(x);
    if t.len() > 0 && (t[0] == '-' || t[0] == '*') {
        assert(q.len() > 0);
        assert(t.drop_first() =~= q.drop_first() + seq!['('] + range_label(r) + seq![')']);
        let q2 = lemma_trim_keeps_suffix(q.drop_first(), r);
        lemma_suffix_after(q2, r);
        let item = trim(t.drop_first());
        assert(trim(item) == item) by {
            lemma_trim_twice(t.drop_first());
        }
    }
}

proof fn lemma_trim_start_idempotent(s: Seq<char>)
    ensures
        trim_start(trim_start(s)) == trim_start(s),
        trim_start(s).len() == 0 || !is_white_space(trim_start(s)[0]),
    decreases s.len(),
{
    if s.len() > 0 && is_white_space(s[0]) {
        lemma_trim_start_idempotent(s.drop_first());
    }
}

proof fn lemma_trim_end_keeps_start(s: Seq<char>)
    requires
        s.len() == 0 || !is_white_space(s[0]),
    ensures
        trim_end(s).len() == 0 || !is_white_space(trim_end(s)[0]),
        trim_start(trim_end(s)) == trim_end(s),
    decreases s.len(),
{
    if s.len() > 0 && is_white_space(s.last()) {
        if s.len() > 1 {
            lemma_trim_end_keeps_start(s.drop_last());
        }
    }
}

/// Trimming twice trims once.
pub proof fn lemma_trim_twice(s: Seq<char>)
    ensures
        trim(trim(s)) == trim(s),
{
    let a = trim_start(s);
    assert(a.len() == 0 || !is_white_space(a[0])) by {
        lemma_trim_start_idempotent(s);
    }
    lemma_trim_end_keeps_start(a);
    lemma_trim_end_idempotent(a);
}

/// Law: setting the line numbers of a line twice leaves the second ones in
/// place of the first.
pub proof fn lemma_reinjection_replaces(line: Seq<char>, r1: (usize, usize), r2: (usize, usize))
    ensures
        injected_line(injected_line(line, r1), r2) == injected_line(line, r2),
{
    let c = cleaned_line(line);
    let x = injected_line(line, r1);
    let p = c + seq![' '];
    assert(x =~= p + seq!['('] + range_label(r1) + seq![')']);
    lemma_suffix_after(p, r1);
    assert(trim_end(x) == x);
    assert(x.subrange(0, p.len() as int) =~= p);
    assert(p.drop_last() =~= c);
    assert(trim_end(p) == trim_end(c));
    let u = trim_end(line);
    match line_suffix(u) {
        Some((start, _, _)) => lemma_trim_end_idempotent(u.subrange(0, start)),
        None => lemma_trim_end_idempotent(line),
    }
    assert(cleaned_line(x) == c);
}

/// `true` when finding `i` asks for line numbers on line `m` (counted from
/// 0) of a document: a finding about missing or wrong line numbers that
/// knows the code's lines, with `m + 1` as its line, a line 0 standing for
/// the first.
pub open spec fn names_line(i: IssueView, m: int) -> bool {
    &&& (i.issue_type == AuditIssueType::LineNumberMissing || i.issue_type == AuditIssueType::LineNumberMismatch)
    &&& i.code_line_range is Some
    &&& (i.spec_line == m + 1 || (i.spec_line == 0 && m == 0))
}

/// Law: the fixes keep the number of lines; a line that no finding names
/// stays as it was; a line that some finding names becomes that line with
/// the code range of the last finding that names it written in, whichever
/// line of the document it is, the last one included.
pub proof fn lemma_fixes_set_named_lines(lines: Seq<Seq<char>>, issues: Seq<IssueView>)
    ensures
        apply_fixes(lines, issues).len() == lines.len(),
        forall|m: int|
            0 <= m < lines.len() && (forall|j: int| 0 <= j < issues.len() ==> !#[trigger] names_line(issues[j], m))
                ==> #[trigger] apply_fixes(lines, issues)[m] == lines[m],
        forall|m: int, j: int|
            0 <= m < lines.len() && 0 <= j < issues.len() && #[trigger] names_line(issues[j], m) && (forall|j2: int|
                0 <= j2 < issues.len() && j2 != j ==> !#[trigger] names_line(issues[j2], m))
                ==> apply_fixes(lines, issues)[m] == injected_line(lines[m], issues[j].code_line_range->0),
        forall|m: int, j: int|
            0 <= m < lines.len() && 0 <= j < issues.len() && #[trigger] names_line(issues[j], m) && (forall|j2: int|
                j < j2 < issues.len() ==> !#[trigger] names_line(issues[j2], m))
                ==> apply_fixes(lines, issues)[m] == injected_line(lines[m], issues[j].code_line_range->0),
        forall|m: int|
            0 <= m < lines.len() ==> (#[trigger] apply_fixes(lines, issues)[m] == lines[m] || exists|r: (usize, usize)|
                apply_fixes(lines, issues)[m] == #[trigger] injected_line(lines[m], r)),
    decreases issues.len(),
{
    if issues.len() > 0 {
        let init = issues.drop_last();
        let x = issues.last();
        let last = issues.len() - 1;
        lemma_fixes_set_named_lines(lines, init);
        let prev = apply_fixes(lines, init);
        assert(x == issues[last]);
        assert forall|m: int|
            0 <= m < lines.len() && (forall|j: int| 0 <= j < issues.len() ==> !#[trigger] names_line(issues[j], m))
                implies #[trigger] apply_fixes(lines, issues)[m] == lines[m] by {
            assert(!names_line(issues[last], m));
            assert forall|j: int| 0 <= j < init.len() implies !#[trigger] names_line(init[j], m) by {
                assert(init[j] == issues[j]);
                assert(!names_line(issues[j], m));
            }
        }
        assert forall|m: int, j: int|
            0 <= m < lines.len() && 0 <= j < issues.len() && #[trigger] names_line(issues[j], m) && (forall|j2: int|
                0 <= j2 < issues.len() && j2 != j ==> !#[trigger] names_line(issues[j2], m))
                implies apply_fixes(lines, issues)[m] == injected_line(lines[m], issues[j].code_line_range->0) by {
            if j == last {
                assert forall|j2: int| 0 <= j2 < init.len() implies !#[trigger] names_line(init[j2], m) by {
                    assert(init[j2] == issues[j2]);
                    assert(!names_line(issues[j2], m));
                }
                assert(prev[m] == lines[m]);
            } else {
                assert(!names_line(issues[last], m));
                assert(init[j] == issues[j]);
                assert forall|j2: int| 0 <= j2 < init.len() && j2 != j implies !#[trigger] names_line(init[j2], m) by {
                    assert(init[j2] == issues[j2]);
                    assert(!names_line(issues[j2], m));
                }
                assert(names_line(init[j], m));
            }
        }
        assert forall|m: int, j: int|
            0 <= m < lines.len() && 0 <= j < issues.len() && #[trigger] names_line(issues[j], m) && (forall|j2: int|
                j < j2 < issues.len() ==> !#[trigger] names_line(issues[j2], m))
                implies apply_fixes(lines, issues)[m] == injected_line(lines[m], issues[j].code_line_range->0) by {
            let r = issues[j].code_line_range->0;
            if j == last {
                if prev[m] != lines[m] {
                    let r0 = choose|r0: (usize, usize)| prev[m] == #[trigger] injected_line(lines[m], r0);
                    lemma_reinjection_replaces(lines[m], r0, r);
                }
            } else {
                assert(!names_line(issues[last], m));
                assert(init[j] == issues[j]);
                assert forall|j2: int| j < j2 < init.len() implies !#[trigger] names_line(init[j2], m) by {
                    assert(init[j2] == issues[j2]);
                    assert(!names_line(issues[j2], m));
                }
                assert(names_line(init[j], m));
            }
        }
        assert forall|m: int| 0 <= m < lines.len() implies (#[trigger] apply_fixes(lines, issues)[m] == lines[m]
            || exists|r: (usize, usize)| apply_fixes(lines, issues)[m] == #[trigger] injected_line(lines[m], r)) by {
            if names_line(x, m) {
                let r = x.code_line_range->0;
                if prev[m] != lines[m] {
                    let r0 = choose|r0: (usize, usize)| prev[m] == #[trigger] injected_line(lines[m], r0);
                    lemma_reinjection_replaces(lines[m], r0, r);
                }
                assert(apply_fixes(lines, issues)[m] == injected_line(lines[m], r));
            }
        }
    }
}

/// Law: the fixed document is the document's lines, fixed as
/// `lemma_fixes_set_named_lines` says, joined by line feeds.
pub proof fn lemma_fixed_document_lines(text: Seq<char>, issues: Seq<IssueView>)
    ensures
        fixed_document(text, issues) == join_lines(apply_fixes(lines_of(text), issues)),
        apply_fixes(lines_of(text), issues).len() == lines_of(text).len(),
        forall|m: int, j: int|
            0 <= m < lines_of(text).len() && 0 <= j < issues.len() && #[trigger] names_line(issues[j], m) && (
            forall|j2: int| 0 <= j2 < issues.len() && j2 != j ==> !#[trigger] names_line(issues[j2], m))
                ==> apply_fixes(lines_of(text), issues)[m] == injected_line(
                lines_of(text)[m],
                issues[j].code_line_range->0,
            ),
        forall|m: int, j: int|
            0 <= m < lines_of(text).len() && 0 <= j < issues.len() && #[trigger] names_line(issues[j], m) && (
            forall|j2: int| j < j2 < issues.len() ==> !#[trigger] names_line(issues[j2], m))
                ==> apply_fixes(lines_of(text), issues)[m] == injected_line(
                lines_of(text)[m],
                issues[j].code_line_range->0,
            ),
        forall|m: int|
            0 <= m < lines_of(text).len() && (forall|j: int| 0 <= j < issues.len() ==> !#[trigger] names_line(issues[j], m))
                ==> #[trigger] apply_fixes(lines_of(text), issues)[m] == lines_of(text)[m],
{
    lemma_fixes_set_named_lines(lines_of(text), issues);
}

} // verus!
