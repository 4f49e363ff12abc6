//! The grammar of the specification documents.
//!
//! A declaration is a bullet line (`-` or `*`) that holds
//! `fn name(param: type, ...) -> ret` or `let|const|static name: type`,
//! optionally closed by the line numbers of the definition, `(L10-20)` or
//! `(L10)`. A level-3 heading declares a symbol too (see `headings`).
//! Dependencies are the edges `caller --> callee` of a Mermaid block.
use vstd::prelude::*;
use crate::scan::{
    digits_start, in_class, lemma_digits_start_bounds,
    lines_of, line_bounds, run_end, scan_digits_back, scan_run, CharClass,
};
use crate::symbols::{SymbolInfo, SymbolKind, SymbolView};
use crate::text::{string_of, trim, trim_bounds};

verus! {

// ---------------------------------------------------------------------------
// Numbers

pub open spec fn all_ascii_digits(s: Seq<char>) -> bool {
    forall|k: int| 0 <= k < s.len() ==> '0' <= #[trigger] s[k] && s[k] <= '9'
}

/// The value of a numeral of ASCII digits.
pub open spec fn numeral_value(s: Seq<char>) -> nat
    decreases s.len(),
{
    if s.len() == 0 {
        0
    } else {
        numeral_value(s.drop_last()) * 10 + ((s.last() as int - '0' as int) as nat)
    }
}

/// `true` when `str::parse::<usize>` accepts the numeral: ASCII digits whose
/// value fits in `usize`.
pub open spec fn parses_as_usize(s: Seq<char>) -> bool {
    all_ascii_digits(s) && numeral_value(s) <= usize::MAX
}

proof fn lemma_numeral_prefix(s: Seq<char>, i: int)
    requires
        0 <= i <= s.len(),
        all_ascii_digits(s),
    ensures
        numeral_value(s.take(i)) <= numeral_value(s),
    decreases s.len() - i,
{
    if i < s.len() {
        lemma_numeral_prefix(s, i + 1);
        assert(s.take(i + 1).drop_last() == s.take(i));
    } else {
        assert(s.take(i) == s);
    }
}

/// The value of `t[lo..hi]`, or `None` where it is no numeral that fits in
/// `usize`.
pub fn parse_numeral(t: &[char], lo: usize, hi: usize) -> (r: Option<usize>)
    requires
        lo <= hi <= t@.len(),
    ensures
        match r {
            Some(v) => parses_as_usize(t@.subrange(lo as int, hi as int))
                && v == numeral_value(t@.subrange(lo as int, hi as int)),
            None => !parses_as_usize(t@.subrange(lo as int, hi as int)),
        },
{
    let ghost s = t@.subrange(lo as int, hi as int);
    let mut v: usize = 0;
    let mut i = lo;
    while i < hi
        invariant
            lo <= i <= hi <= t@.len(),
            s == t@.subrange(lo as int, hi as int),
            all_ascii_digits(s.take(i - lo)),
            v == numeral_value(s.take(i - lo)),
        decreases hi - i,
    {
        let c = t[i];
        assert(s[i - lo] == c);
        if !('0' <= c && c <= '9') {
            return None;
        }
        assert(s.take(i + 1 - lo).drop_last() == s.take(i - lo));
        let d: usize = (c as u32 - '0' as u32) as usize;
        match v.checked_mul(10) {
            Some(m) => match m.checked_add(d) {
                Some(n) => {
                    v = n;
                },
                None => {
                    proof {
                        assert(all_ascii_digits(s.take(i + 1 - lo)));
                        if all_ascii_digits(s) {
                            lemma_numeral_prefix(s, i + 1 - lo);
                        }
                    }
                    return None;
                },
            },
            None => {
                proof {
                    assert(all_ascii_digits(s.take(i + 1 - lo)));
                    if all_ascii_digits(s) {
                        lemma_numeral_prefix(s, i + 1 - lo);
                    }
                }
                return None;
            },
        }
        i = i + 1;
    }
    assert(s.take(hi - lo) == s);
    Some(v)
}

// ---------------------------------------------------------------------------
// The line-number suffix

/// The suffix `(L<first>)` or `(L<first>-<last>)` that closes the trimmed
/// declaration `t`: where it starts, and its numerals. The digits are those
/// of `\d`, Unicode's decimal digits.
pub open spec fn line_suffix(t: Seq<char>) -> Option<(int, Seq<char>, Option<Seq<char>>)> {
    if t.len() > 0 && t.last() == ')' {
        let k = t.len() - 1;
        let a = digits_start(t, k);
        if a < k && a >= 2 && t[a - 1] == 'L' && t[a - 2] == '(' {
            Some((a - 2, t.subrange(a, k), None))
        } else if a < k && a >= 1 && t[a - 1] == '-' {
            let b = digits_start(t, a - 1);
            if b < a - 1 && b >= 2 && t[b - 1] == 'L' && t[b - 2] == '(' {
                Some((b - 2, t.subrange(b, a - 1), Some(t.subrange(a, k))))
            } else {
                None
            }
        } else {
            None
        }
    } else {
        None
    }
}

/// The numerals of the line-number suffix of `t` can be read: the suffix is
/// absent, or its numerals are ASCII and fit in `usize`.
pub open spec fn suffix_numbers_parse(t: Seq<char>) -> bool {
    match line_suffix(t) {
        Some((_, first, last)) => parses_as_usize(first) && match last {
            Some(l) => parses_as_usize(l),
            None => true,
        },
        None => true,
    }
}

/// The line range that the suffix of `t` states.
pub open spec fn declared_range(t: Seq<char>) -> Option<(usize, usize)> {
    match line_suffix(t) {
        Some((_, first, last)) => Some((
            numeral_value(first) as usize,
            match last {
                Some(l) => numeral_value(l) as usize,
                None => numeral_value(first) as usize,
            },
        )),
        None => None,
    }
}

/// The declaration `t` without its line-number suffix, trimmed.
pub open spec fn without_suffix(t: Seq<char>) -> Seq<char> {
    match line_suffix(t) {
        Some((start, _, _)) => trim(t.subrange(0, start)),
        None => t,
    }
}

/// Finds the line-number suffix of `t[lo..hi]`: its start and the bounds of
/// its numerals.
pub fn find_line_suffix(t: &[char], lo: usize, hi: usize) -> (r: Option<(usize, usize, usize, Option<(usize, usize)>)>)
    requires
        lo <= hi <= t@.len(),
    ensures
        match r {
            Some((start, f0, f1, last)) => {
                &&& lo <= start <= f0 <= f1 <= hi
                &&& line_suffix(t@.subrange(lo as int, hi as int)) == Some((
                    start - lo,
                    t@.subrange(f0 as int, f1 as int),
                    match last {
                        Some((l0, l1)) => Some(t@.subrange(l0 as int, l1 as int)),
                        None => None,
                    },
                ))
                &&& (last matches Some((l0, l1)) ==> f1 <= l0 <= l1 <= hi)
            },
            None => line_suffix(t@.subrange(lo as int, hi as int)) is None,
        },
{
    let ghost s = t@.subrange(lo as int, hi as int);
    if hi == lo || t[hi - 1] != ')' {
        return None;
    }
    let k = hi - 1;
    let sub = slice_range(t, lo, hi);
    let a_rel = scan_digits_back(sub.as_slice(), k - lo);
    proof { lemma_digits_start_bounds(s, (k - lo) as int); }
    assert(sub@ == s);
    let a = lo + a_rel;
    if a < k && a >= lo + 2 && t[a - 1] == 'L' && t[a - 2] == '(' {
        assert(s[a - lo - 1] == t@[a - 1]);
        assert(s[a - lo - 2] == t@[a - 2]);
        assert(s.subrange(a - lo, k - lo) == t@.subrange(a as int, k as int));
        return Some((a - 2, a, k, None));
    }
    if a < k && a >= lo + 1 && t[a - 1] == '-' {
        assert(s[a - lo - 1] == t@[a - 1]);
        let b_rel = scan_digits_back(sub.as_slice(), a - 1 - lo);
        proof { lemma_digits_start_bounds(s, (a - 1 - lo) as int); }
        let b = lo + b_rel;
        if b < a - 1 && b >= lo + 2 && t[b - 1] == 'L' && t[b - 2] == '(' {
            assert(s[b - lo - 1] == t@[b - 1]);
            assert(s[b - lo - 2] == t@[b - 2]);
            assert(s.subrange(b - lo, a - 1 - lo) == t@.subrange(b as int, a - 1));
            assert(s.subrange(a - lo, k - lo) == t@.subrange(a as int, k as int));
            return Some((b - 2, b, a - 1, Some((a, k))));
        }
        proof {
            if b >= lo + 2 {
                assert(s[b - lo - 1] == t@[b - 1]);
                assert(s[b - lo - 2] == t@[b - 2]);
            }
        }
        return None;
    }
    proof {
        if a >= lo + 1 {
            assert(s[a - lo - 1] == t@[a - 1]);
        }
        if a >= lo + 2 {
            assert(s[a - lo - 2] == t@[a - 2]);
        }
    }
    None
}

/// A copy of `t[lo..hi]`.
pub fn slice_range(t: &[char], lo: usize, hi: usize) -> (r: Vec<char>)
    requires
        lo <= hi <= t@.len(),
    ensures
        r@ == t@.subrange(lo as int, hi as int),
{
    let mut r: Vec<char> = Vec::new();
    let mut i = lo;
    while i < hi
        invariant
            lo <= i <= hi <= t@.len(),
            r@ == t@.subrange(lo as int, i as int),
        decreases hi - i,
    {
        r.push(t[i]);
        assert(t@.subrange(lo as int, i + 1) == t@.subrange(lo as int, i as int).push(t@[i as int]));
        i = i + 1;
    }
    r
}

// ---------------------------------------------------------------------------
// Declarations

/// The first `ch` at or after `i`, or the end of `s`.
pub open spec fn find_char(s: Seq<char>, i: int, ch: char) -> int
    decreases s.len() - i,
{
    if i < 0 || i >= s.len() {
        s.len() as int
    } else if s[i] == ch {
        i
    } else {
        find_char(s, i + 1, ch)
    }
}

pub proof fn lemma_find_char(s: Seq<char>, i: int, ch: char)
    requires
        0 <= i <= s.len(),
    ensures
        i <= find_char(s, i, ch) <= s.len(),
        find_char(s, i, ch) < s.len() ==> s[find_char(s, i, ch)] == ch,
        forall|k: int| i <= k < find_char(s, i, ch) ==> #[trigger] s[k] != ch,
    decreases s.len() - i,
{
    if i < s.len() && s[i] != ch {
        lemma_find_char(s, i + 1, ch);
    }
}

/// Where the first `ch` at or after `i` stands, or the end of `s`.
pub fn scan_to(s: &[char], i: usize, ch: char) -> (k: usize)
    requires
        i <= s@.len(),
    ensures
        k == find_char(s@, i as int, ch),
        i <= k <= s@.len(),
{
    proof { lemma_find_char(s@, i as int, ch); }
    let mut k = i;
    while k < s.len() && s[k] != ch
        invariant
            i <= k <= s@.len(),
            find_char(s@, i as int, ch) == find_char(s@, k as int, ch),
        decreases s@.len() - k,
    {
        k = k + 1;
    }
    k
}

/// `fn name(params) -> ret`, as `^fn\s+(\w+)\s*(?:\((.*?)\))?\s*(?:->\s*([^\s{]+))?`
/// reads it: the name, the text between the parentheses, the return type.
pub open spec fn fn_decl(c: Seq<char>) -> Option<(Seq<char>, Option<Seq<char>>, Option<Seq<char>>)> {
    if crate::text::starts_with(c, "fn"@) {
        let p1 = run_end(c, 2, CharClass::Space);
        let ne = run_end(c, p1, CharClass::Word);
        if p1 > 2 && ne > p1 {
            let p2 = run_end(c, ne, CharClass::Space);
            let q = find_char(c, p2 + 1, ')');
            let has_params = p2 < c.len() && c[p2] == '(' && q < c.len() && q < find_char(c, p2 + 1, '\n');
            let p3 = if has_params { q + 1 } else { p2 };
            let p4 = run_end(c, p3, CharClass::Space);
            let p5 = run_end(c, p4 + 2, CharClass::Space);
            let re = run_end(c, p5, CharClass::NotSpaceOrBrace);
            Some((
                c.subrange(p1, ne),
                if has_params { Some(c.subrange(p2 + 1, q)) } else { None },
                if p4 + 2 <= c.len() && c[p4] == '-' && c[p4 + 1] == '>' && re > p5 {
                    Some(c.subrange(p5, re))
                } else {
                    None
                },
            ))
        } else {
            None
        }
    } else {
        None
    }
}

/// Where the keyword `let`, `const` or `static` that starts `c` ends; 0 where
/// none does.
pub open spec fn keyword_end(c: Seq<char>) -> int {
    if crate::text::starts_with(c, "let"@) {
        3
    } else if crate::text::starts_with(c, "const"@) {
        5
    } else if crate::text::starts_with(c, "static"@) {
        6
    } else {
        0
    }
}

/// `let name: type`, as `^(?:let|const|static)\s+(\w+)\s*(?::\s*([^\s=]+))?`
/// reads it: the name and the type.
pub open spec fn var_decl(c: Seq<char>) -> Option<(Seq<char>, Option<Seq<char>>)> {
    let kw = keyword_end(c);
    if kw > 0 {
        let p1 = run_end(c, kw, CharClass::Space);
        let ne = run_end(c, p1, CharClass::Word);
        if p1 > kw && ne > p1 {
            let p2 = run_end(c, ne, CharClass::Space);
            let p3 = run_end(c, p2 + 1, CharClass::Space);
            let te = run_end(c, p3, CharClass::NotSpaceOrEquals);
            Some((
                c.subrange(p1, ne),
                if p2 < c.len() && c[p2] == ':' && te > p3 { Some(c.subrange(p3, te)) } else { None },
            ))
        } else {
            None
        }
    } else {
        None
    }
}

/// The pieces of `s[i..]` between the occurrences of `ch`, as `str::split`
/// gives them.
pub open spec fn split_from(s: Seq<char>, i: int, ch: char) -> Seq<Seq<char>>
    decreases s.len() - i,
{
    let k = find_char(s, i, ch);
    if 0 <= i <= k < s.len() {
        seq![s.subrange(i, k)] + split_from(s, k + 1, ch)
    } else {
        seq![s.subrange(i, s.len() as int)]
    }
}

/// A parameter `name: type`: the first two pieces between colons, trimmed;
/// an empty type where there is no colon.
pub open spec fn param_of(seg: Seq<char>) -> (Seq<char>, Seq<char>) {
    let k = find_char(seg, 0, ':');
    let k2 = find_char(seg, k + 1, ':');
    (
        trim(seg.subrange(0, k)),
        if k < seg.len() { trim(seg.subrange(k + 1, k2)) } else { Seq::empty() },
    )
}

/// The parameters listed between the parentheses of a declaration.
pub open spec fn params_of(p: Seq<char>) -> Seq<(Seq<char>, Seq<char>)> {
    if trim(p).len() == 0 {
        seq![]
    } else {
        split_from(p, 0, ',').map_values(|seg: Seq<char>| param_of(seg))
    }
}

/// The symbol that the text `line` of a bullet item declares.
pub open spec fn decl_symbol(line: Seq<char>) -> Option<SymbolView> {
    let t = trim(line);
    if t.len() == 0 {
        None
    } else {
        let c = without_suffix(t);
        match fn_decl(c) {
            Some((name, params, ret)) => Some(SymbolView {
                name,
                kind: SymbolKind::Function,
                params: match params {
                    Some(p) => Some(params_of(p)),
                    None => None,
                },
                return_type: ret,
                var_type: None,
                line_range: declared_range(t),
                spec_line: None,
                dependencies: None,
                used_symbols: None,
            }),
            None => match var_decl(c) {
                Some((name, ty)) => Some(SymbolView {
                    name,
                    kind: SymbolKind::Variable,
                    params: None,
                    return_type: None,
                    var_type: ty,
                    line_range: declared_range(t),
                    spec_line: None,
                    dependencies: None,
                    used_symbols: None,
                }),
                None => None,
            },
        }
    }
}

} // verus!

verus! {


/// Reads `fn name(params) -> ret` at the start of `c`.
fn match_fn_decl(c: &[char]) -> (r: Option<(usize, usize, Option<(usize, usize)>, Option<(usize, usize)>)>)
    ensures
        match r {
            Some((n0, n1, params, ret)) => {
                &&& n0 <= n1 <= c@.len()
                &&& (params matches Some((a, b)) ==> a <= b <= c@.len())
                &&& (ret matches Some((a, b)) ==> a <= b <= c@.len())
                &&& fn_decl(c@) == Some((
                    c@.subrange(n0 as int, n1 as int),
                    match params {
                        Some((a, b)) => Some(c@.subrange(a as int, b as int)),
                        None => None,
                    },
                    match ret {
                        Some((a, b)) => Some(c@.subrange(a as int, b as int)),
                        None => None,
                    },
                ))
            },
            None => fn_decl(c@) is None,
        },
{
    let n = c.len();
    assert(c@.subrange(0, n as int) == c@);
    proof { reveal_strlit("fn"); }
    if !crate::text::range_starts_with(c, 0, n, "fn") {
        return None;
    }
    let p1 = scan_run(c, 2, CharClass::Space);
    let ne = scan_run(c, p1, CharClass::Word);
    if !(p1 > 2 && ne > p1) {
        return None;
    }
    let p2 = scan_run(c, ne, CharClass::Space);
    let mut has_params = false;
    let mut q: usize = 0;
    if p2 < n && c[p2] == '(' {
        q = scan_to(c, p2 + 1, ')');
        let nl = scan_to(c, p2 + 1, '\n');
        has_params = q < n && q < nl;
    }
    let p3 = if has_params { q + 1 } else { p2 };
    let p4 = scan_run(c, p3, CharClass::Space);
    let mut ret: Option<(usize, usize)> = None;
    if p4 < n && n - p4 >= 2 && c[p4] == '-' && c[p4 + 1] == '>' {
        let p5 = scan_run(c, p4 + 2, CharClass::Space);
        let re = scan_run(c, p5, CharClass::NotSpaceOrBrace);
        if re > p5 {
            ret = Some((p5, re));
        }
    }
    let params = if has_params { Some((p2 + 1, q)) } else { None };
    Some((p1, ne, params, ret))
}

/// Reads `let|const|static name: type` at the start of `c`.
fn match_var_decl(c: &[char]) -> (r: Option<(usize, usize, Option<(usize, usize)>)>)
    ensures
        match r {
            Some((n0, n1, ty)) => {
                &&& n0 <= n1 <= c@.len()
                &&& (ty matches Some((a, b)) ==> a <= b <= c@.len())
                &&& var_decl(c@) == Some((
                    c@.subrange(n0 as int, n1 as int),
                    match ty {
                        Some((a, b)) => Some(c@.subrange(a as int, b as int)),
                        None => None,
                    },
                ))
            },
            None => var_decl(c@) is None,
        },
{
    let n = c.len();
    assert(c@.subrange(0, n as int) == c@);
    proof {
        reveal_strlit("let");
        reveal_strlit("const");
        reveal_strlit("static");
    }
    let kw: usize = if crate::text::range_starts_with(c, 0, n, "let") {
        3
    } else if crate::text::range_starts_with(c, 0, n, "const") {
        5
    } else if crate::text::range_starts_with(c, 0, n, "static") {
        6
    } else {
        0
    };
    if kw == 0 {
        return None;
    }
    let p1 = scan_run(c, kw, CharClass::Space);
    let ne = scan_run(c, p1, CharClass::Word);
    if !(p1 > kw && ne > p1) {
        return None;
    }
    let p2 = scan_run(c, ne, CharClass::Space);
    let mut ty: Option<(usize, usize)> = None;
    if p2 < n && c[p2] == ':' {
        let p3 = scan_run(c, p2 + 1, CharClass::Space);
        let te = scan_run(c, p3, CharClass::NotSpaceOrEquals);
        if te > p3 {
            ty = Some((p3, te));
        }
    }
    Some((p1, ne, ty))
}

/// The trimmed text `s[lo..hi]` as a string.
fn trimmed_string(s: &[char], lo: usize, hi: usize) -> (r: String)
    requires
        lo <= hi <= s@.len(),
    ensures
        r@ == trim(s@.subrange(lo as int, hi as int)),
{
    let (a, b) = trim_bounds(s, lo, hi);
    string_of(s, a, b)
}

/// The parameter `seg`: its name and type.
pub fn parse_param(seg: &[char]) -> (r: (String, String))
    ensures
        (r.0@, r.1@) == param_of(seg@),
{
    let n = seg.len();
    let k = scan_to(seg, 0, ':');
    let name = trimmed_string(seg, 0, k);
    if k < n {
        let k2 = scan_to(seg, k + 1, ':');
        (name, trimmed_string(seg, k + 1, k2))
    } else {
        (name, String::new())
    }
}

/// The parameters listed in `p`.
fn parse_params(p: &[char]) -> (r: Vec<(String, String)>)
    ensures
        crate::symbols::pairs_view(r@) == params_of(p@),
{
    let n = p.len();
    let (a, b) = trim_bounds(p, 0, n);
    assert(p@.subrange(0, n as int) == p@);
    let mut out: Vec<(String, String)> = Vec::new();
    if a == b {
        assert(crate::symbols::pairs_view(out@) =~= params_of(p@));
        return out;
    }
    let ghost whole = split_from(p@, 0, ',').map_values(|seg: Seq<char>| param_of(seg));
    let mut i: usize = 0;
    let mut more = true;
    while more
        invariant
            n == p@.len(),
            more ==> i <= n,
            whole == split_from(p@, 0, ',').map_values(|seg: Seq<char>| param_of(seg)),
            crate::symbols::pairs_view(out@) + (if more {
                split_from(p@, i as int, ',').map_values(|seg: Seq<char>| param_of(seg))
            } else {
                Seq::empty()
            }) == whole,
        decreases (n - i) as int + (if more { 1int } else { 0int }),
    {
        let k = scan_to(p, i, ',');
        let seg = slice_range(p, i, k);
        let ghost before = crate::symbols::pairs_view(out@);
        let pair = parse_param(seg.as_slice());
        out.push(pair);
        assert(crate::symbols::pairs_view(out@) =~= before.push(param_of(p@.subrange(i as int, k as int))));
        if k < n {
            assert(split_from(p@, i as int, ',').map_values(|seg: Seq<char>| param_of(seg))
                =~= seq![param_of(p@.subrange(i as int, k as int))]
                    + split_from(p@, k + 1, ',').map_values(|seg: Seq<char>| param_of(seg)));
            i = k + 1;
        } else {
            assert(split_from(p@, i as int, ',').map_values(|seg: Seq<char>| param_of(seg))
                =~= seq![param_of(p@.subrange(i as int, k as int))]);
            more = false;
        }
    }
    assert(crate::symbols::pairs_view(out@) =~= whole);
    out
}

} // verus!

verus! {

fn opt_string_of(c: &[char], r: Option<(usize, usize)>) -> (s: Option<String>)
    requires
        r matches Some((a, b)) ==> a <= b <= c@.len(),
    ensures
        crate::symbols::opt_string_view(s) == match r {
            Some((a, b)) => Some(c@.subrange(a as int, b as int)),
            None => None,
        },
{
    match r {
        Some((a, b)) => Some(string_of(c, a, b)),
        None => None,
    }
}

/// The symbol that the text of a bullet item declares.
pub fn parse_spec_line(line: &[char]) -> (r: Option<SymbolInfo>)
    requires
        suffix_numbers_parse(trim(line@)),
    ensures
        match r {
            Some(sym) => decl_symbol(line@) == Some(sym@),
            None => decl_symbol(line@) is None,
        },
{
    let (a, b) = trim_bounds(line, 0, line.len());
    assert(line@.subrange(0, line@.len() as int) == line@);
    let t = slice_range(line, a, b);
    let n = t.len();
    if n == 0 {
        return None;
    }
    assert(t@.subrange(0, n as int) == t@);
    let suffix = find_line_suffix(t.as_slice(), 0, n);
    let mut line_range: Option<(usize, usize)> = None;
    let c: Vec<char> = match suffix {
        Some((start, f0, f1, last)) => {
            let first = match parse_numeral(t.as_slice(), f0, f1) {
                Some(v) => v,
                None => 0,
            };
            let last_value = match last {
                Some((l0, l1)) => match parse_numeral(t.as_slice(), l0, l1) {
                    Some(v) => v,
                    None => 0,
                },
                None => first,
            };
            line_range = Some((first, last_value));
            let (ca, cb) = trim_bounds(t.as_slice(), 0, start);
            slice_range(t.as_slice(), ca, cb)
        },
        None => slice_range(t.as_slice(), 0, n),
    };
    assert(line_range == declared_range(t@));
    assert(c@ == without_suffix(t@));
    match match_fn_decl(c.as_slice()) {
        Some((n0, n1, params, ret)) => {
            let params_vec = match params {
                Some((pa, pb)) => {
                    let p = slice_range(c.as_slice(), pa, pb);
                    Some(parse_params(p.as_slice()))
                },
                None => None,
            };
            let sym = SymbolInfo {
                name: string_of(c.as_slice(), n0, n1),
                kind: SymbolKind::Function,
                params: params_vec,
                return_type: opt_string_of(c.as_slice(), ret),
                var_type: None,
                line_range,
                spec_line: None,
                dependencies: None,
                used_symbols: None,
            };
            Some(sym)
        },
        None => match match_var_decl(c.as_slice()) {
            Some((n0, n1, ty)) => {
                let sym = SymbolInfo {
                    name: string_of(c.as_slice(), n0, n1),
                    kind: SymbolKind::Variable,
                    params: None,
                    return_type: None,
                    var_type: opt_string_of(c.as_slice(), ty),
                    line_range,
                    spec_line: None,
                    dependencies: None,
                    used_symbols: None,
                };
                Some(sym)
            },
            None => None,
        },
    }
}

} // verus!

verus! {

// ---------------------------------------------------------------------------
// Mermaid edges

/// Where the callee starts, when `t[i..]` continues with `\s*-->\s*` and a
/// character of `[\w:]`.
pub open spec fn arrow_target(t: Seq<char>, i: int) -> Option<int> {
    let a = run_end(t, i, CharClass::Space);
    let b = run_end(t, a + 3, CharClass::Space);
    if a + 3 <= t.len() && t[a] == '-' && t[a + 1] == '-' && t[a + 2] == '>' && b < t.len()
        && in_class(t[b], CharClass::WordOrColon) {
        Some(b)
    } else {
        None
    }
}

/// The `]` that closes a node label `[...]` opened before `q`: the first one,
/// from `q` on and before any line feed, that an arrow follows.
pub open spec fn bracket_close(t: Seq<char>, q: int) -> Option<int>
    decreases t.len() - q,
{
    if q < 0 || q >= t.len() || t[q] == '\n' {
        None
    } else if t[q] == ']' && arrow_target(t, q + 1) is Some {
        Some(q)
    } else {
        bracket_close(t, q + 1)
    }
}

/// The edge `caller --> callee` of a trimmed Mermaid line, as
/// `^\s*(\w+)(?:\[.*?\])?\s*-->\s*([\w:]+)(?:\[.*?\])?` reads it.
pub open spec fn mermaid_edge(t: Seq<char>) -> Option<(Seq<char>, Seq<char>)> {
    let we = run_end(t, 0, CharClass::Word);
    if we == 0 {
        None
    } else {
        let target = if we < t.len() && t[we] == '[' {
            match bracket_close(t, we + 1) {
                Some(q) => arrow_target(t, q + 1),
                None => None,
            }
        } else {
            arrow_target(t, we)
        };
        match target {
            Some(b) => Some((t.subrange(0, we), t.subrange(b, run_end(t, b, CharClass::WordOrColon)))),
            None => None,
        }
    }
}

fn match_arrow(t: &[char], i: usize) -> (r: Option<usize>)
    requires
        i <= t@.len(),
    ensures
        match r {
            Some(b) => arrow_target(t@, i as int) == Some(b as int) && b < t@.len(),
            None => arrow_target(t@, i as int) is None,
        },
{
    let n = t.len();
    let a = scan_run(t, i, CharClass::Space);
    if a < n && n - a >= 3 && t[a] == '-' && t[a + 1] == '-' && t[a + 2] == '>' {
        let b = scan_run(t, a + 3, CharClass::Space);
        if b < n && crate::scan::in_class_char(t[b], CharClass::WordOrColon) {
            return Some(b);
        }
    }
    None
}

fn match_bracket_close(t: &[char], q: usize) -> (r: Option<usize>)
    requires
        q <= t@.len(),
    ensures
        match r {
            Some(c) => bracket_close(t@, q as int) == Some(c as int) && c < t@.len(),
            None => bracket_close(t@, q as int) is None,
        },
{
    let n = t.len();
    let mut k = q;
    while k < n
        invariant
            q <= k <= n == t@.len(),
            bracket_close(t@, q as int) == bracket_close(t@, k as int),
        decreases n - k,
    {
        if t[k] == '\n' {
            return None;
        }
        if t[k] == ']' {
            if let Some(_) = match_arrow(t, k + 1) {
                return Some(k);
            }
        }
        k = k + 1;
    }
    None
}

/// Reads the edge `caller --> callee` of a trimmed Mermaid line.
fn match_mermaid_edge(t: &[char]) -> (r: Option<(String, String)>)
    ensures
        match r {
            Some((caller, callee)) => mermaid_edge(t@) == Some((caller@, callee@)),
            None => mermaid_edge(t@) is None,
        },
{
    let n = t.len();
    let we = scan_run(t, 0, CharClass::Word);
    if we == 0 {
        return None;
    }
    let target = if we < n && t[we] == '[' {
        match match_bracket_close(t, we + 1) {
            Some(q) => match_arrow(t, q + 1),
            None => None,
        }
    } else {
        match_arrow(t, we)
    };
    match target {
        Some(b) => {
            let e = scan_run(t, b, CharClass::WordOrColon);
            Some((string_of(t, 0, we), string_of(t, b, e)))
        },
        None => None,
    }
}

} // verus!

verus! {

// ---------------------------------------------------------------------------
// Documents

/// The text of a bullet item: a line whose trimmed text starts with `-` or
/// `*`, without that mark, trimmed.
pub open spec fn bullet_item(line: Seq<char>) -> Option<Seq<char>> {
    let t = trim(line);
    if t.len() > 0 && (t[0] == '-' || t[0] == '*') {
        Some(trim(t.drop_first()))
    } else {
        None
    }
}

pub open spec fn at_line(sym: SymbolView, line: usize) -> SymbolView {
    SymbolView { spec_line: Some(line), ..sym }
}

/// The symbols that the first `n` lines declare, each with its line number.
pub open spec fn declared_upto(lines: Seq<Seq<char>>, n: nat) -> Seq<SymbolView>
    decreases n,
{
    if n == 0 {
        seq![]
    } else {
        let prev = declared_upto(lines, (n - 1) as nat);
        match bullet_item(lines[n - 1]) {
            Some(item) => match decl_symbol(item) {
                Some(sym) => prev.push(at_line(sym, n as usize)),
                None => prev,
            },
            None => match crate::headings::heading_symbol(lines, n - 1) {
                Some(sym) => prev.push(at_line(sym, n as usize)),
                None => prev,
            },
        }
    }
}

/// After the first `n` lines: whether a Mermaid block is open, and the edges
/// found in Mermaid blocks so far.
pub open spec fn mermaid_scan(lines: Seq<Seq<char>>, n: nat) -> (bool, Seq<(Seq<char>, Seq<char>)>)
    decreases n,
{
    if n == 0 {
        (false, seq![])
    } else {
        let (open, edges) = mermaid_scan(lines, (n - 1) as nat);
        let t = trim(lines[n - 1]);
        if crate::text::starts_with(t, "```mermaid"@) {
            (true, edges)
        } else if open && crate::text::starts_with(t, "```"@) {
            (false, edges)
        } else if open {
            match mermaid_edge(t) {
                Some(e) => (true, edges.push(e)),
                None => (true, edges),
            }
        } else {
            (false, edges)
        }
    }
}

pub open spec fn deps_or_empty(d: Option<Seq<Seq<char>>>) -> Seq<Seq<char>> {
    match d {
        Some(v) => v,
        None => seq![],
    }
}

/// `d` with `x` added at the end, unless it already holds it.
pub open spec fn add_unique(d: Seq<Seq<char>>, x: Seq<char>) -> Seq<Seq<char>> {
    if d.contains(x) {
        d
    } else {
        d.push(x)
    }
}

/// Every symbol named `caller` records that it depends on `callee`.
pub open spec fn with_dependency(syms: Seq<SymbolView>, caller: Seq<char>, callee: Seq<char>) -> Seq<SymbolView> {
    syms.map_values(|s: SymbolView| if s.name == caller {
        SymbolView { dependencies: Some(add_unique(deps_or_empty(s.dependencies), callee)), ..s }
    } else {
        s
    })
}

/// The symbols after the first `n` edges have been recorded.
pub open spec fn apply_edges(syms: Seq<SymbolView>, edges: Seq<(Seq<char>, Seq<char>)>, n: nat) -> Seq<SymbolView>
    decreases n,
{
    if n == 0 {
        syms
    } else {
        let prev = apply_edges(syms, edges, (n - 1) as nat);
        with_dependency(prev, edges[n - 1].0, edges[n - 1].1)
    }
}

/// The symbols that a specification document declares, with their
/// dependencies.
pub open spec fn document_symbols(content: Seq<char>) -> Seq<SymbolView> {
    let lines = lines_of(content);
    let edges = mermaid_scan(lines, lines.len()).1;
    apply_edges(declared_upto(lines, lines.len()), edges, edges.len())
}

/// Every line number that the document writes can be read: `str::parse`
/// accepts each numeral of a line-number suffix of a declaration.
pub open spec fn document_numbers_parse(content: Seq<char>) -> bool {
    let lines = lines_of(content);
    forall|k: int| 0 <= k < lines.len() ==> match bullet_item(#[trigger] lines[k]) {
        Some(item) => suffix_numbers_parse(trim(item)),
        None => true,
    }
}

/// The bounds of the item of the bullet line `v[lo..hi]`.
pub fn bullet_bounds(v: &[char], lo: usize, hi: usize) -> (r: Option<(usize, usize)>)
    requires
        lo <= hi <= v@.len(),
    ensures
        match r {
            Some((a, b)) => a <= b <= v@.len() && bullet_item(v@.subrange(lo as int, hi as int)) == Some(v@.subrange(a as int, b as int)),
            None => bullet_item(v@.subrange(lo as int, hi as int)) is None,
        },
{
    let (a, b) = trim_bounds(v, lo, hi);
    if a < b && (v[a] == '-' || v[a] == '*') {
        let (c, d) = trim_bounds(v, a + 1, b);
        assert(v@.subrange(a as int, b as int).drop_first() == v@.subrange(a + 1, b as int));
        assert(v@.subrange(a as int, b as int)[0] == v@[a as int]);
        Some((c, d))
    } else {
        proof {
            if a < b {
                assert(v@.subrange(a as int, b as int)[0] == v@[a as int]);
            }
        }
        None
    }
}

/// `true` when every line number that the document writes can be read.
pub fn document_numbers_are_readable(content: &str) -> (b: bool)
    ensures
        b == document_numbers_parse(content@),
{
    let v = crate::text::chars_of(content);
    let bounds = line_bounds(v.as_slice());
    let ghost lines = lines_of(v@);
    let mut k: usize = 0;
    while k < bounds.len()
        invariant
            v@ == content@,
            lines == lines_of(v@),
            bounds@.len() == lines.len(),
            forall|m: int| 0 <= m < bounds@.len() ==> #[trigger] bounds@[m].0 <= bounds@[m].1 <= v@.len()
                && v@.subrange(bounds@[m].0 as int, bounds@[m].1 as int) == lines[m],
            k <= bounds@.len(),
            forall|m: int| 0 <= m < k ==> match bullet_item(#[trigger] lines[m]) {
                Some(item) => suffix_numbers_parse(trim(item)),
                None => true,
            },
        decreases bounds@.len() - k,
    {
        let (lo, hi) = bounds[k];
        assert(v@.subrange(bounds@[k as int].0 as int, bounds@[k as int].1 as int) == lines[k as int]);
        if let Some((a, b)) = bullet_bounds(v.as_slice(), lo, hi) {
            let (c, d) = trim_bounds(v.as_slice(), a, b);
            let t = slice_range(v.as_slice(), c, d);
            let n = t.len();
            assert(t@.subrange(0, n as int) == t@);
            let ok = match find_line_suffix(t.as_slice(), 0, n) {
                Some((_, f0, f1, last)) => {
                    let first_ok = match parse_numeral(t.as_slice(), f0, f1) {
                        Some(_) => true,
                        None => false,
                    };
                    let last_ok = match last {
                        Some((l0, l1)) => match parse_numeral(t.as_slice(), l0, l1) {
                            Some(_) => true,
                            None => false,
                        },
                        None => true,
                    };
                    first_ok && last_ok
                },
                None => true,
            };
            if !ok {
                assert(!document_numbers_parse(content@)) by {
                    assert(!match bullet_item(lines[k as int]) {
                        Some(item) => suffix_numbers_parse(trim(item)),
                        None => true,
                    });
                }
                return false;
            }
        }
        k = k + 1;
    }
    true
}

/// Records in every symbol named `caller` that it depends on `callee`.
fn add_dependency(symbols: &mut Vec<SymbolInfo>, caller: &String, callee: &String)
    ensures
        crate::symbols::symbols_view(final(symbols)@) == with_dependency(
            crate::symbols::symbols_view(old(symbols)@),
            caller@,
            callee@,
        ),
{
    let ghost before = crate::symbols::symbols_view(symbols@);
    let ghost target = with_dependency(before, caller@, callee@);
    let mut k: usize = 0;
    while k < symbols.len()
        invariant
            k <= symbols@.len(),
            before.len() == symbols@.len(),
            target == with_dependency(before, caller@, callee@),
            forall|m: int| 0 <= m < k ==> #[trigger] symbols@[m]@ == target[m],
            forall|m: int| k <= m < symbols@.len() ==> #[trigger] symbols@[m]@ == before[m],
        decreases symbols@.len() - k,
    {
        assert(target[k as int] == (if before[k as int].name == caller@ {
            SymbolView {
                dependencies: Some(add_unique(deps_or_empty(before[k as int].dependencies), callee@)),
                ..before[k as int]
            }
        } else {
            before[k as int]
        }));
        if symbols[k].name == *caller {
            let mut deps: Vec<String> = match &symbols[k].dependencies {
                Some(d) => crate::symbols::copy_strings(d),
                None => Vec::new(),
            };
            let ghost d0 = crate::symbols::strings_view(deps@);
            assert(symbols@[k as int]@ == before[k as int]);
            assert(d0 =~= deps_or_empty(before[k as int].dependencies));
            if !crate::auditor::contains_string(deps.as_slice(), callee) {
                deps.push(crate::symbols::copy_string(callee));
                assert(crate::symbols::strings_view(deps@) =~= d0.push(callee@));
            }
            assert(crate::symbols::strings_view(deps@) == add_unique(deps_or_empty(before[k as int].dependencies), callee@));
            let ghost old_syms = symbols@;
            let sym = &mut symbols[k];
            sym.dependencies = Some(deps);
            assert(symbols@[k as int]@ == target[k as int]);
            assert(forall|m: int| 0 <= m < symbols@.len() && m != k ==> symbols@[m] == old_syms[m]);
        }
        k = k + 1;
    }
    assert(crate::symbols::symbols_view(symbols@) =~= target);
}

/// The symbols that a specification document declares: each declaration
/// with the line that holds it, and the dependencies that its Mermaid
/// diagrams draw.
pub fn parse_markdown_spec(content: &str) -> (symbols: Vec<SymbolInfo>)
    requires
        document_numbers_parse(content@),
    ensures
        crate::symbols::symbols_view(symbols@) == document_symbols(content@),
{
    let v = crate::text::chars_of(content);
    let bounds = line_bounds(v.as_slice());
    let ghost lines = lines_of(v@);
    let mut symbols: Vec<SymbolInfo> = Vec::new();
    let mut k: usize = 0;
    while k < bounds.len()
        invariant
            v@ == content@,
            lines == lines_of(v@),
            document_numbers_parse(v@),
            bounds@.len() == lines.len(),
            forall|m: int| 0 <= m < bounds@.len() ==> #[trigger] bounds@[m].0 <= bounds@[m].1 <= v@.len()
                && v@.subrange(bounds@[m].0 as int, bounds@[m].1 as int) == lines[m],
            k <= bounds@.len(),
            crate::symbols::symbols_view(symbols@) == declared_upto(lines, k as nat),
        decreases bounds@.len() - k,
    {
        let (lo, hi) = bounds[k];
        assert(v@.subrange(bounds@[k as int].0 as int, bounds@[k as int].1 as int) == lines[k as int]);
        let ghost before = crate::symbols::symbols_view(symbols@);
        if let Some((a, b)) = bullet_bounds(v.as_slice(), lo, hi) {
            let item = slice_range(v.as_slice(), a, b);
            assert(match bullet_item(lines[k as int]) {
                Some(it) => suffix_numbers_parse(trim(it)),
                None => true,
            });
            match parse_spec_line(item.as_slice()) {
                Some(sym) => {
                    let mut sym = sym;
                    sym.spec_line = Some(k + 1);
                    symbols.push(sym);
                    assert(crate::symbols::symbols_view(symbols@) =~= before.push(symbols@.last()@));
                },
                None => {},
            }
        } else {
            match crate::headings::heading_symbol_of(v.as_slice(), &bounds, k, Ghost(lines)) {
                Some(sym) => {
                    let mut sym = sym;
                    sym.spec_line = Some(k + 1);
                    symbols.push(sym);
                    assert(crate::symbols::symbols_view(symbols@) =~= before.push(symbols@.last()@));
                },
                None => {},
            }
        }
        k = k + 1;
    }
    let ghost declared = crate::symbols::symbols_view(symbols@);
    // Mermaid dependencies.
    let mut open = false;
    let ghost mut edges: Seq<(Seq<char>, Seq<char>)> = seq![];
    k = 0;
    while k < bounds.len()
        invariant
            v@ == content@,
            lines == lines_of(v@),
            bounds@.len() == lines.len(),
            forall|m: int| 0 <= m < bounds@.len() ==> #[trigger] bounds@[m].0 <= bounds@[m].1 <= v@.len()
                && v@.subrange(bounds@[m].0 as int, bounds@[m].1 as int) == lines[m],
            k <= bounds@.len(),
            (open, edges) == mermaid_scan(lines, k as nat),
            crate::symbols::symbols_view(symbols@) == apply_edges(declared, edges, edges.len()),
        decreases bounds@.len() - k,
    {
        let (lo, hi) = bounds[k];
        assert(v@.subrange(bounds@[k as int].0 as int, bounds@[k as int].1 as int) == lines[k as int]);
        let (a, b) = trim_bounds(v.as_slice(), lo, hi);
        proof { reveal_strlit("```mermaid"); reveal_strlit("```"); }
        if crate::text::range_starts_with(v.as_slice(), a, b, "```mermaid") {
            open = true;
        } else if open && crate::text::range_starts_with(v.as_slice(), a, b, "```") {
            open = false;
        } else if open {
            let t = slice_range(v.as_slice(), a, b);
            match match_mermaid_edge(t.as_slice()) {
                Some((caller, callee)) => {
                    add_dependency(&mut symbols, &caller, &callee);
                    proof {
                        let e = (caller@, callee@);
                        assert(edges.push(e).drop_last() == edges);
                        assert(apply_edges(declared, edges.push(e), edges.len() + 1)
                            == with_dependency(apply_edges(declared, edges, edges.len()), caller@, callee@)) by {
                            assert(edges.push(e)[edges.len() as int] == e);
                            lemma_apply_edges_prefix(declared, edges, e, edges.len());
                        }
                        edges = edges.push(e);
                    }
                },
                None => {},
            }
        }
        k = k + 1;
    }
    symbols
}

proof fn lemma_apply_edges_prefix(
    syms: Seq<SymbolView>,
    edges: Seq<(Seq<char>, Seq<char>)>,
    e: (Seq<char>, Seq<char>),
    n: nat,
)
    requires
        n <= edges.len(),
    ensures
        apply_edges(syms, edges.push(e), n) == apply_edges(syms, edges, n),
    decreases n,
{
    if n > 0 {
        lemma_apply_edges_prefix(syms, edges, e, (n - 1) as nat);
        assert(edges.push(e)[n - 1] == edges[n - 1]);
    }
}

} // verus!

verus! {

/// Every symbol of `syms` lists each dependency once.
pub open spec fn deps_distinct(syms: Seq<SymbolView>) -> bool {
    forall|k: int| 0 <= k < syms.len() ==> ((#[trigger] syms[k]).dependencies matches Some(d) ==> d.no_duplicates())
}

proof fn lemma_declared_have_no_deps(lines: Seq<Seq<char>>, n: nat)
    ensures
        forall|k: int| 0 <= k < declared_upto(lines, n).len() ==> (#[trigger] declared_upto(lines, n)[k]).dependencies is None,
    decreases n,
{
    if n > 0 {
        lemma_declared_have_no_deps(lines, (n - 1) as nat);
    }
}

proof fn lemma_add_unique_distinct(d: Seq<Seq<char>>, x: Seq<char>)
    requires
        d.no_duplicates(),
    ensures
        add_unique(d, x).no_duplicates(),
{
    if !d.contains(x) {
        assert forall|i: int, j: int| 0 <= i < j < d.push(x).len() implies d.push(x)[i] != d.push(x)[j] by {
            if j == d.len() {
                assert(d.contains(d[i]));
            }
        }
    }
}

proof fn lemma_edges_keep_distinct(syms: Seq<SymbolView>, edges: Seq<(Seq<char>, Seq<char>)>, n: nat)
    requires
        deps_distinct(syms),
        n <= edges.len(),
    ensures
        deps_distinct(apply_edges(syms, edges, n)),
    decreases n,
{
    if n > 0 {
        lemma_edges_keep_distinct(syms, edges, (n - 1) as nat);
        let prev = apply_edges(syms, edges, (n - 1) as nat);
        let next = with_dependency(prev, edges[n - 1].0, edges[n - 1].1);
        assert forall|k: int| 0 <= k < next.len() implies ((#[trigger] next[k]).dependencies matches Some(d) ==> d.no_duplicates()) by {
            let s = prev[k];
            if s.name == edges[n - 1].0 {
                let d0 = deps_or_empty(s.dependencies);
                assert(d0.no_duplicates()) by {
                    if s.dependencies is None {
                        assert(d0 =~= Seq::<Seq<char>>::empty());
                    }
                }
                lemma_add_unique_distinct(d0, edges[n - 1].1);
            }
        }
    }
}

/// Law: in what a document declares, every symbol lists each of its
/// dependencies once, however often the Mermaid diagrams repeat an edge.
pub proof fn lemma_document_dependencies_distinct(content: Seq<char>)
    ensures
        deps_distinct(document_symbols(content)),
{
    let lines = lines_of(content);
    let edges = mermaid_scan(lines, lines.len()).1;
    lemma_declared_have_no_deps(lines, lines.len());
    lemma_edges_keep_distinct(declared_upto(lines, lines.len()), edges, edges.len());
}

/// `run_end` reaches `j` where the class holds from `i` up to `j` and not at `j`.
proof fn lemma_run_end_at(t: Seq<char>, i: int, j: int, class: CharClass)
    requires
        0 <= i <= j <= t.len(),
        forall|k: int| i <= k < j ==> in_class(#[trigger] t[k], class),
        j == t.len() || !in_class(t[j], class),
    ensures
        run_end(t, i, class) == j,
    decreases j - i,
{
    if i < j {
        lemma_run_end_at(t, i + 1, j, class);
    }
}

/// The text `kw NAME: T` is no function declaration, reads as the variable
/// `NAME` of type `T`, and starts and ends with no whitespace.
proof fn lemma_var_decl_text(kw: Seq<char>, name: Seq<char>, ty: Seq<char>)
    requires
        kw == "let"@ || kw == "const"@ || kw == "static"@,
        name.len() > 0,
        forall|i: int| 0 <= i < name.len() ==> crate::scan::is_word(#[trigger] name[i])
            && !crate::text::is_white_space(name[i]),
        ty.len() > 0,
        forall|i: int| 0 <= i < ty.len() ==> !crate::text::is_white_space(#[trigger] ty[i]) && ty[i] != '=',
    ensures
        ({
            let c = kw + seq![' '] + name + seq![':', ' '] + ty;
            &&& fn_decl(c) is None
            &&& var_decl(c) == Some((name, Some(ty)))
            &&& c.len() > 0
            &&& !crate::text::is_white_space(c[0])
            &&& c.last() == ty.last()
            &&& trim(c) == c
        }),
{
    reveal_strlit("let");
    reveal_strlit("const");
    reveal_strlit("static");
    reveal_strlit("fn");
    let c = kw + seq![' '] + name + seq![':', ' '] + ty;
    let kl = kw.len() as int;
    let nl = name.len() as int;
    let ne = kl + 1 + nl;
    assert(c.len() == ne + 2 + ty.len());
    assert(c[kl] == ' ');
    assert forall|i: int| 0 <= i < nl implies c[kl + 1 + i] == name[i] by {}
    assert(c[ne] == ':');
    assert(c[ne + 1] == ' ');
    assert forall|i: int| 0 <= i < ty.len() implies c[ne + 2 + i] == ty[i] by {}
    assert(c[0] == kw[0]);
    assert(c.last() == ty.last());
    assert(!crate::text::is_white_space(c[0]));
    assert(trim(c) == c);
    assert(c.subrange(0, kl) =~= kw);
    assert(!crate::text::starts_with(c, "fn"@)) by {
        assert(c.subrange(0, 2)[0] == c[0]);
    }
    assert(fn_decl(c) is None);
    if kw == "const"@ {
        assert(!crate::text::starts_with(c, "let"@)) by {
            assert(c.subrange(0, 3)[0] == c[0]);
        }
    } else if kw == "static"@ {
        assert(!crate::text::starts_with(c, "let"@)) by {
            assert(c.subrange(0, 3)[0] == c[0]);
        }
        assert(!crate::text::starts_with(c, "const"@)) by {
            assert(c.subrange(0, 5)[0] == c[0]);
        }
    }
    assert(keyword_end(c) == kl);
    lemma_run_end_at(c, kl, kl + 1, CharClass::Space);
    lemma_run_end_at(c, kl + 1, ne, CharClass::Word);
    lemma_run_end_at(c, ne, ne, CharClass::Space);
    lemma_run_end_at(c, ne + 1, ne + 2, CharClass::Space);
    lemma_run_end_at(c, ne + 2, c.len() as int, CharClass::NotSpaceOrEquals);
    assert(c.subrange(kl + 1, ne) =~= name);
    assert(c.subrange(ne + 2, c.len() as int) =~= ty);
}

/// Law: a declaration `let NAME: T`, `const NAME: T` or `static NAME: T`
/// declares the variable `NAME` of type `T`, with no line range, whichever
/// of the three keywords it starts with; `NAME` is a run of word characters
/// and `T` a run of characters that are neither whitespace nor `=` and do
/// not end in `)`.
pub proof fn lemma_variable_declarations(kw: Seq<char>, name: Seq<char>, ty: Seq<char>)
    requires
        kw == "let"@ || kw == "const"@ || kw == "static"@,
        name.len() > 0,
        forall|i: int| 0 <= i < name.len() ==> crate::scan::is_word(#[trigger] name[i])
            && !crate::text::is_white_space(name[i]),
        ty.len() > 0,
        forall|i: int| 0 <= i < ty.len() ==> !crate::text::is_white_space(#[trigger] ty[i]) && ty[i] != '=',
        ty.last() != ')',
    ensures
        decl_symbol(kw + seq![' '] + name + seq![':', ' '] + ty) == Some(SymbolView {
            name,
            kind: SymbolKind::Variable,
            params: None,
            return_type: None,
            var_type: Some(ty),
            line_range: None,
            spec_line: None,
            dependencies: None,
            used_symbols: None,
        }),
{
    lemma_var_decl_text(kw, name, ty);
    let c = kw + seq![' '] + name + seq![':', ' '] + ty;
    assert(line_suffix(c) is None);
}

/// `digits_start` goes back to `i` over ASCII digits from `i` to `k`.
proof fn lemma_digits_start_at(t: Seq<char>, i: int, k: int)
    requires
        0 <= i <= k <= t.len(),
        forall|m: int| i <= m < k ==> '0' <= #[trigger] t[m] && t[m] <= '9',
        i == 0 || !crate::scan::is_decimal_digit(t[i - 1]),
    ensures
        digits_start(t, k) == i,
    decreases k - i,
{
    if i < k {
        lemma_digits_start_at(t, i, k - 1);
        assert(crate::scan::is_decimal_digit(t[k - 1]));
    }
}

/// Law: the same declarations closed by a line number `(L<digits>)` declare
/// that variable on the range of that one line.
#[verifier::rlimit(40)]
pub proof fn lemma_variable_declarations_on_a_line(kw: Seq<char>, name: Seq<char>, ty: Seq<char>, digits: Seq<char>)
    requires
        kw == "let"@ || kw == "const"@ || kw == "static"@,
        name.len() > 0,
        forall|i: int| 0 <= i < name.len() ==> crate::scan::is_word(#[trigger] name[i])
            && !crate::text::is_white_space(name[i]),
        ty.len() > 0,
        forall|i: int| 0 <= i < ty.len() ==> !crate::text::is_white_space(#[trigger] ty[i]) && ty[i] != '=',
        digits.len() > 0,
        forall|i: int| 0 <= i < digits.len() ==> '0' <= #[trigger] digits[i] && digits[i] <= '9',
    ensures
        decl_symbol(kw + seq![' '] + name + seq![':', ' '] + ty + seq![' ', '(', 'L'] + digits + seq![')'])
            == Some(SymbolView {
            name,
            kind: SymbolKind::Variable,
            params: None,
            return_type: None,
            var_type: Some(ty),
            line_range: Some((numeral_value(digits) as usize, numeral_value(digits) as usize)),
            spec_line: None,
            dependencies: None,
            used_symbols: None,
        }),
{
    lemma_var_decl_text(kw, name, ty);
    let c = kw + seq![' '] + name + seq![':', ' '] + ty;
    let t = c + seq![' ', '(', 'L'] + digits + seq![')'];
    let cl = c.len() as int;
    let k = t.len() - 1;
    let a = cl + 3;
    assert(k == a + digits.len());
    assert(t[0] == c[0]);
    assert(t.last() == ')');
    assert(trim(t) == t);
    assert forall|m: int| a <= m < k implies '0' <= #[trigger] t[m] && t[m] <= '9' by {
        assert(t[m] == digits[m - a]);
    }
    assert(t[a - 1] == 'L');
    assert(t[a - 2] == '(');
    lemma_digits_start_at(t, a, k);
    assert(t.subrange(a, k) =~= digits);
    assert(line_suffix(t) == Some((a - 2, digits, Option::<Seq<char>>::None)));
    let head = t.subrange(0, a - 2);
    assert(head =~= c + seq![' ']);
    lemma_trim_with_space(c);
    assert(without_suffix(t) == c);
}

/// `c` followed by one space trims to `c`, where `c` starts and ends with no
/// whitespace.
proof fn lemma_trim_with_space(c: Seq<char>)
    requires
        c.len() > 0,
        !crate::text::is_white_space(c[0]),
        !crate::text::is_white_space(c.last()),
    ensures
        trim(c + seq![' ']) == c,
{
    let s = c + seq![' '];
    assert(s[0] == c[0]);
    assert(crate::text::trim_start(s) == s);
    assert(s.drop_last() =~= c);
    assert(crate::text::trim_end(s) == crate::text::trim_end(c));
}

} // verus!
