//! Declarations by heading: a level-3 heading ``### `name` `` (optionally
//! closed by `(L<first>-<last>)`) declares a symbol, and the lines below it,
//! up to the next heading, describe it:
//!
//! ```text
//! ### `login` (L10-20)
//! - **Parameters**:
//!   - `user: String`
//! - **Return Value**:
//!   - `Result`
//! ```
//!
//! A symbol with a parameter or return-value section is a function; any other
//! is a variable, whose type a `**var_type**` section gives. The sections may
//! also be named in Japanese (`引数`, `戻り値`, `型`).
use vstd::prelude::*;
use crate::spec_doc::{
    bullet_bounds, bullet_item, declared_range, find_char, find_line_suffix, lemma_find_char, param_of,
    parse_numeral, parse_param, scan_to, slice_range, suffix_numbers_parse,
};
use crate::symbols::{SymbolInfo, SymbolKind, SymbolView};
use crate::text::{is_white_space, is_white_space_char, range_starts_with, starts_with, string_of, trim, trim_bounds};

verus! {

/// A line whose trimmed text starts with `#`.
pub open spec fn starts_heading(line: Seq<char>) -> bool {
    let t = trim(line);
    t.len() > 0 && t[0] == '#'
}

/// The name that a level-3 heading ``### `name` `` declares.
pub open spec fn heading_name(line: Seq<char>) -> Option<Seq<char>> {
    let t = trim(line);
    if t.len() >= 4 && t[0] == '#' && t[1] == '#' && t[2] == '#' && is_white_space(t[3]) {
        let r = trim(t.skip(3));
        let e = find_char(r, 1, '`');
        if r.len() > 0 && r[0] == '`' && e < r.len() && e > 1 {
            Some(r.subrange(1, e))
        } else {
            None
        }
    } else {
        None
    }
}

/// The line numbers at the end of a heading, where they can be read.
pub open spec fn heading_range(line: Seq<char>) -> Option<(usize, usize)> {
    let t = trim(line);
    if suffix_numbers_parse(t) {
        declared_range(t)
    } else {
        None
    }
}

/// The section that a bullet line opens: 1 parameters, 2 return value,
/// 3 variable type, 0 none.
pub open spec fn section_of(line: Seq<char>) -> int {
    match bullet_item(line) {
        Some(it) => if starts_with(it, "**Parameters**"@) || starts_with(it, "**引数**"@) {
            1
        } else if starts_with(it, "**Return Value**"@) || starts_with(it, "**戻り値**"@) {
            2
        } else if starts_with(it, "**var_type**"@) || starts_with(it, "**型**"@) {
            3
        } else {
            0
        },
        None => 0,
    }
}

/// The text between the backquotes of a bullet item `` `text` ``.
pub open spec fn code_item(line: Seq<char>) -> Option<Seq<char>> {
    match bullet_item(line) {
        Some(it) => if it.len() >= 2 && it[0] == '`' && it.last() == '`' {
            Some(it.subrange(1, it.len() - 1))
        } else {
            None
        },
        None => None,
    }
}

/// What the lines under a heading have said so far, and which section is
/// open.
pub struct HeadingBody {
    pub function: bool,
    pub params: Option<Seq<(Seq<char>, Seq<char>)>>,
    pub ret: Option<Seq<char>>,
    pub var_type: Option<Seq<char>>,
    pub mode: int,
}

pub open spec fn body_start() -> HeadingBody {
    HeadingBody { function: false, params: None, ret: None, var_type: None, mode: 0 }
}

/// One line under a heading: a section marker opens its section; a code
/// item adds a parameter, or gives the return value or type; any other line
/// closes the section.
pub open spec fn body_step(b: HeadingBody, line: Seq<char>) -> HeadingBody {
    let s = section_of(line);
    if s == 1 {
        HeadingBody {
            function: true,
            params: Some(
                match b.params {
                    Some(p) => p,
                    None => seq![],
                },
            ),
            mode: 1,
            ..b
        }
    } else if s == 2 {
        HeadingBody { function: true, mode: 2, ..b }
    } else if s == 3 {
        HeadingBody { mode: 3, ..b }
    } else {
        match code_item(line) {
            Some(x) => if b.mode == 1 {
                HeadingBody {
                    params: Some(
                        match b.params {
                            Some(p) => p,
                            None => seq![],
                        }.push(param_of(x)),
                    ),
                    ..b
                }
            } else if b.mode == 2 {
                HeadingBody { ret: Some(trim(x)), mode: 0, ..b }
            } else if b.mode == 3 {
                HeadingBody { var_type: Some(trim(x)), mode: 0, ..b }
            } else {
                b
            },
            None => HeadingBody { mode: 0, ..b },
        }
    }
}

pub open spec fn body_fold(ls: Seq<Seq<char>>) -> HeadingBody
    decreases ls.len(),
{
    if ls.len() == 0 {
        body_start()
    } else {
        body_step(body_fold(ls.drop_last()), ls.last())
    }
}

/// The first line from `j` on that starts a heading, or the end.
pub open spec fn block_end(lines: Seq<Seq<char>>, j: int) -> int
    decreases lines.len() - j,
{
    if j < 0 || j >= lines.len() {
        lines.len() as int
    } else if starts_heading(lines[j]) {
        j
    } else {
        block_end(lines, j + 1)
    }
}

proof fn lemma_block_end(lines: Seq<Seq<char>>, j: int)
    requires
        0 <= j <= lines.len(),
    ensures
        j <= block_end(lines, j) <= lines.len(),
    decreases lines.len() - j,
{
    if j < lines.len() && !starts_heading(lines[j]) {
        lemma_block_end(lines, j + 1);
    }
}

/// The symbol that line `k` declares by a heading, with what the lines
/// below it say.
pub open spec fn heading_symbol(lines: Seq<Seq<char>>, k: int) -> Option<SymbolView> {
    match heading_name(lines[k]) {
        Some(name) => {
            let b = body_fold(lines.subrange(k + 1, block_end(lines, k + 1)));
            Some(
                SymbolView {
                    name,
                    kind: if b.function { SymbolKind::Function } else { SymbolKind::Variable },
                    params: if b.function { b.params } else { None },
                    return_type: if b.function { b.ret } else { None },
                    var_type: if b.function { None } else { b.var_type },
                    line_range: heading_range(lines[k]),
                    spec_line: None,
                    dependencies: None,
                    used_symbols: None,
                },
            )
        },
        None => None,
    }
}

// ---------------------------------------------------------------------------
// Reading

fn starts_heading_at(v: &[char], bounds: &Vec<(usize, usize)>, j: usize, Ghost(lines): Ghost<Seq<Seq<char>>>) -> (b: bool)
    requires
        j < bounds@.len() == lines.len(),
        forall|m: int| 0 <= m < bounds@.len() ==> #[trigger] bounds@[m].0 <= bounds@[m].1 <= v@.len()
            && v@.subrange(bounds@[m].0 as int, bounds@[m].1 as int) == lines[m],
    ensures
        b == starts_heading(lines[j as int]),
{
    let (lo, hi) = bounds[j];
    assert(v@.subrange(bounds@[j as int].0 as int, bounds@[j as int].1 as int) == lines[j as int]);
    let (a, b) = trim_bounds(v, lo, hi);
    a < b && v[a] == '#'
}

fn heading_name_of(l: &[char]) -> (r: Option<String>)
    ensures
        crate::symbols::opt_string_view(r) == heading_name(l@),
{
    let (a, b) = trim_bounds(l, 0, l.len());
    assert(l@.subrange(0, l@.len() as int) == l@);
    let ghost t = trim(l@);
    if !(b - a >= 4 && l[a] == '#' && l[a + 1] == '#' && l[a + 2] == '#' && is_white_space_char(l[a + 3])) {
        proof {
            if t.len() >= 4 {
                assert(t[0] == l@[a as int] && t[1] == l@[a + 1] && t[2] == l@[a + 2] && t[3] == l@[a + 3]);
            }
        }
        return None;
    }
    assert(t[0] == l@[a as int] && t[1] == l@[a + 1] && t[2] == l@[a + 2] && t[3] == l@[a + 3]);
    let (c, d) = trim_bounds(l, a + 3, b);
    assert(t.skip(3) == l@.subrange(a + 3, b as int));
    let r = slice_range(l, c, d);
    let n = r.len();
    if n == 0 || r[0] != '`' {
        return None;
    }
    let e = scan_to(r.as_slice(), 1, '`');
    if e < n && e > 1 {
        Some(string_of(r.as_slice(), 1, e))
    } else {
        None
    }
}

fn heading_range_of(l: &[char]) -> (r: Option<(usize, usize)>)
    ensures
        r == heading_range(l@),
{
    let (a, b) = trim_bounds(l, 0, l.len());
    assert(l@.subrange(0, l@.len() as int) == l@);
    let t = slice_range(l, a, b);
    let n = t.len();
    assert(t@.subrange(0, n as int) == t@);
    match find_line_suffix(t.as_slice(), 0, n) {
        Some((_, f0, f1, last)) => {
            let first = match parse_numeral(t.as_slice(), f0, f1) {
                Some(x) => x,
                None => {
                    return None;
                },
            };
            let second = match last {
                Some((l0, l1)) => match parse_numeral(t.as_slice(), l0, l1) {
                    Some(x) => x,
                    None => {
                        return None;
                    },
                },
                None => first,
            };
            Some((first, second))
        },
        None => None,
    }
}

fn section_of_line(l: &[char]) -> (s: u8)
    ensures
        s as int == section_of(l@),
{
    assert(l@.subrange(0, l@.len() as int) == l@);
    match bullet_bounds(l, 0, l.len()) {
        Some((a, b)) => {
            if range_starts_with(l, a, b, "**Parameters**") || range_starts_with(l, a, b, "**引数**") {
                1
            } else if range_starts_with(l, a, b, "**Return Value**") || range_starts_with(l, a, b, "**戻り値**") {
                2
            } else if range_starts_with(l, a, b, "**var_type**") || range_starts_with(l, a, b, "**型**") {
                3
            } else {
                0
            }
        },
        None => 0,
    }
}

fn code_item_of(l: &[char]) -> (r: Option<Vec<char>>)
    ensures
        match r {
            Some(x) => code_item(l@) == Some(x@),
            None => code_item(l@) is None,
        },
{
    assert(l@.subrange(0, l@.len() as int) == l@);
    match bullet_bounds(l, 0, l.len()) {
        Some((a, b)) => {
            let ghost it = l@.subrange(a as int, b as int);
            if b - a >= 2 && l[a] == '`' && l[b - 1] == '`' {
                assert(it[0] == l@[a as int] && it.last() == l@[b - 1]);
                let x = slice_range(l, a + 1, b - 1);
                assert(x@ == it.subrange(1, it.len() - 1));
                Some(x)
            } else {
                proof {
                    if it.len() >= 2 {
                        assert(it[0] == l@[a as int] && it.last() == l@[b - 1]);
                    }
                }
                None
            }
        },
        None => None,
    }
}

/// The symbol that line `k` of the text `v`, cut into lines at `bounds`,
/// declares by a heading.
pub fn heading_symbol_of(v: &[char], bounds: &Vec<(usize, usize)>, k: usize, Ghost(lines): Ghost<Seq<Seq<char>>>) -> (r: Option<SymbolInfo>)
    requires
        k < bounds@.len() == lines.len(),
        forall|m: int| 0 <= m < bounds@.len() ==> #[trigger] bounds@[m].0 <= bounds@[m].1 <= v@.len()
            && v@.subrange(bounds@[m].0 as int, bounds@[m].1 as int) == lines[m],
    ensures
        match r {
            Some(s) => heading_symbol(lines, k as int) == Some(s@),
            None => heading_symbol(lines, k as int) is None,
        },
{
    let (lo, hi) = bounds[k];
    assert(v@.subrange(bounds@[k as int].0 as int, bounds@[k as int].1 as int) == lines[k as int]);
    let line = slice_range(v, lo, hi);
    let name = match heading_name_of(line.as_slice()) {
        Some(n) => n,
        None => {
            return None;
        },
    };
    let range = heading_range_of(line.as_slice());
    let mut function = false;
    let mut params: Option<Vec<(String, String)>> = None;
    let mut ret: Option<String> = None;
    let mut var_type: Option<String> = None;
    let mut mode: u8 = 0;
    let total = bounds.len();
    assert(k < total);
    let mut j = k + 1;
    proof { lemma_block_end(lines, k + 1); }
    while j < bounds.len() && !starts_heading_at(v, bounds, j, Ghost(lines))
        invariant
            k < j <= bounds@.len() == lines.len(),
            forall|m: int| 0 <= m < bounds@.len() ==> #[trigger] bounds@[m].0 <= bounds@[m].1 <= v@.len()
                && v@.subrange(bounds@[m].0 as int, bounds@[m].1 as int) == lines[m],
            block_end(lines, k + 1) == block_end(lines, j as int),
            forall|m: int| k + 1 <= m < j ==> !starts_heading(#[trigger] lines[m]),
            ({
                let b = body_fold(lines.subrange(k + 1, j as int));
                &&& b.function == function
                &&& b.params == crate::symbols::opt_pairs_view(params)
                &&& b.ret == crate::symbols::opt_string_view(ret)
                &&& b.var_type == crate::symbols::opt_string_view(var_type)
                &&& b.mode == mode as int
            }),
            mode == 1 ==> params is Some,
        decreases bounds@.len() - j,
    {
        let (a, b) = bounds[j];
        assert(v@.subrange(bounds@[j as int].0 as int, bounds@[j as int].1 as int) == lines[j as int]);
        let l = slice_range(v, a, b);
        assert(lines.subrange(k + 1, j + 1).drop_last() == lines.subrange(k + 1, j as int));
        assert(lines.subrange(k + 1, j + 1).last() == lines[j as int]);
        let s = section_of_line(l.as_slice());
        if s == 1 {
            function = true;
            if params.is_none() {
                let e: Vec<(String, String)> = Vec::new();
                assert(crate::symbols::pairs_view(e@) =~= Seq::<(Seq<char>, Seq<char>)>::empty());
                params = Some(e);
            }
            mode = 1;
        } else if s == 2 {
            function = true;
            mode = 2;
        } else if s == 3 {
            mode = 3;
        } else {
            match code_item_of(l.as_slice()) {
                Some(x) => {
                    if mode == 1 {
                        let p = parse_param(x.as_slice());
                        let mut list = match params {
                            Some(list) => list,
                            None => Vec::new(),
                        };
                        let ghost before = crate::symbols::pairs_view(list@);
                        list.push(p);
                        assert(crate::symbols::pairs_view(list@) =~= before.push(param_of(x@)));
                        params = Some(list);
                    } else if mode == 2 {
                        ret = Some(crate::text::trim_string_of(x.as_slice()));
                        mode = 0;
                    } else if mode == 3 {
                        var_type = Some(crate::text::trim_string_of(x.as_slice()));
                        mode = 0;
                    }
                },
                None => {
                    mode = 0;
                },
            }
        }
        j = j + 1;
    }
    proof {
        if j < bounds@.len() {
            assert(starts_heading(lines[j as int]));
        }
    }
    assert(block_end(lines, j as int) == j);
    let is_fn = function;
    Some(SymbolInfo {
        name,
        kind: if is_fn { SymbolKind::Function } else { SymbolKind::Variable },
        params: if is_fn { params } else { None },
        return_type: if is_fn { ret } else { None },
        var_type: if is_fn { None } else { var_type },
        line_range: range,
        spec_line: None,
        dependencies: None,
        used_symbols: None,
    })
}

} // verus!
