//! What the rules of every language share: building the symbols they
//! read, and reading names, fields and return types off syntax nodes.
use vstd::prelude::*;
use crate::symbols::{opt_string_view, pairs_view, strings_view, symbols_view, SymbolInfo, SymbolKind, SymbolView};
use crate::syntax::{
    field_child, field_of, lines_of_node, node_text, node_trimmed_text, strip_leading, strip_leading_string,
    text_of, trimmed_text, SyntaxNode,
};
use crate::text::trim;

verus! {

pub open spec fn function_symbol(
    name: Seq<char>,
    params: Seq<(Seq<char>, Seq<char>)>,
    ret: Option<Seq<char>>,
    lines: Option<(usize, usize)>,
    used: Seq<Seq<char>>,
) -> SymbolView {
    SymbolView {
        name,
        kind: SymbolKind::Function,
        params: Some(params),
        return_type: ret,
        var_type: None,
        line_range: lines,
        spec_line: None,
        dependencies: None,
        used_symbols: Some(used),
    }
}

pub open spec fn variable_symbol(
    name: Seq<char>,
    var_type: Option<Seq<char>>,
    lines: Option<(usize, usize)>,
    used: Seq<Seq<char>>,
) -> SymbolView {
    SymbolView {
        name,
        kind: SymbolKind::Variable,
        params: None,
        return_type: None,
        var_type,
        line_range: lines,
        spec_line: None,
        dependencies: None,
        used_symbols: Some(used),
    }
}

pub open spec fn opt_seq(s: Option<SymbolView>) -> Seq<SymbolView> {
    match s {
        Some(x) => seq![x],
        None => seq![],
    }
}

/// What every symbol read off a source file is like: it has lines, counted
/// from 1, no document line and no dependencies; the identifiers it uses
/// are listed once each and never with its own name; a function has
/// parameters and no variable type, a variable no parameters and no return
/// type.
pub open spec fn code_symbol_shape(s: SymbolView) -> bool {
    &&& s.spec_line is None
    &&& s.dependencies is None
    &&& s.line_range matches Some((a, b)) && 1 <= a && 1 <= b
    &&& s.used_symbols matches Some(u) && u.no_duplicates() && !u.contains(s.name)
    &&& s.kind == SymbolKind::Function ==> s.params is Some && s.var_type is None
    &&& s.kind == SymbolKind::Variable ==> s.params is None && s.return_type is None
}

/// Every symbol of `ss` is shaped as one read off a source file.
pub open spec fn all_code_shaped(ss: Seq<SymbolView>) -> bool {
    forall|i: int| 0 <= i < ss.len() ==> #[trigger] code_symbol_shape(ss[i])
}

/// Every symbol of `ss` has the lines of node `n`.
pub open spec fn all_from_node(ss: Seq<SymbolView>, n: SyntaxNode) -> bool {
    forall|i: int| 0 <= i < ss.len() ==> (#[trigger] ss[i]).line_range == lines_of_node(n)
}

/// Symbol `s` lies on lines `a..=b` with `1 <= a <= b <= k + 1`.
pub open spec fn lines_within(s: SymbolView, k: nat) -> bool {
    s.line_range matches Some((a, b)) && 1 <= a && a <= b && b <= k + 1
}

/// Every symbol of `ss` lies within the first `k + 1` lines.
pub open spec fn all_lines_within(ss: Seq<SymbolView>, k: nat) -> bool {
    forall|i: int| 0 <= i < ss.len() ==> #[trigger] lines_within(ss[i], k)
}

/// Two lists whose symbols all have the lines of `n`, joined, still do.
pub proof fn lemma_concat_from_node(a: Seq<SymbolView>, b: Seq<SymbolView>, n: SyntaxNode)
    requires
        all_from_node(a, n),
        all_from_node(b, n),
    ensures
        all_from_node(a + b, n),
{
    assert forall|i: int| 0 <= i < (a + b).len() implies (#[trigger] (a + b)[i]).line_range == lines_of_node(n) by {
        if i < a.len() {
            assert((a + b)[i] == a[i]);
        } else {
            assert((a + b)[i] == b[i - a.len()]);
        }
    }
}

/// Two lists whose symbols all lie within the first `k + 1` lines, joined,
/// still do.
pub proof fn lemma_concat_lines_within(a: Seq<SymbolView>, b: Seq<SymbolView>, k: nat)
    requires
        all_lines_within(a, k),
        all_lines_within(b, k),
    ensures
        all_lines_within(a + b, k),
{
    assert forall|i: int| 0 <= i < (a + b).len() implies #[trigger] lines_within((a + b)[i], k) by {
        if i < a.len() {
            assert((a + b)[i] == a[i]);
        } else {
            assert((a + b)[i] == b[i - a.len()]);
        }
    }
}

/// Two lists of symbols of that shape, joined, are all of that shape.
pub proof fn lemma_concat_shaped(a: Seq<SymbolView>, b: Seq<SymbolView>)
    requires
        all_code_shaped(a),
        all_code_shaped(b),
    ensures
        all_code_shaped(a + b),
{
    assert forall|i: int| 0 <= i < (a + b).len() implies #[trigger] code_symbol_shape((a + b)[i]) by {
        if i < a.len() {
            assert((a + b)[i] == a[i]);
        } else {
            assert((a + b)[i] == b[i - a.len()]);
        }
    }
}

pub fn make_function(
    name: String,
    params: Vec<(String, String)>,
    ret: Option<String>,
    lines: Option<(usize, usize)>,
    used: Vec<String>,
) -> (s: SymbolInfo)
    ensures
        s@ == function_symbol(name@, pairs_view(params@), opt_string_view(ret), lines, strings_view(used@)),
{
    SymbolInfo {
        name,
        kind: SymbolKind::Function,
        params: Some(params),
        return_type: ret,
        var_type: None,
        line_range: lines,
        spec_line: None,
        dependencies: None,
        used_symbols: Some(used),
    }
}

pub fn make_variable(name: String, var_type: Option<String>, lines: Option<(usize, usize)>, used: Vec<String>) -> (s: SymbolInfo)
    ensures
        s@ == variable_symbol(name@, opt_string_view(var_type), lines, strings_view(used@)),
{
    SymbolInfo {
        name,
        kind: SymbolKind::Variable,
        params: None,
        return_type: None,
        var_type,
        line_range: lines,
        spec_line: None,
        dependencies: None,
        used_symbols: Some(used),
    }
}

pub fn push_symbol(out: &mut Vec<SymbolInfo>, s: SymbolInfo)
    ensures
        symbols_view(final(out)@) == symbols_view(old(out)@).push(s@),
{
    let ghost before = symbols_view(out@);
    out.push(s);
    assert(symbols_view(out@) =~= before.push(s@));
}

pub fn push_opt_symbol(out: &mut Vec<SymbolInfo>, s: Option<SymbolInfo>)
    ensures
        symbols_view(final(out)@) == symbols_view(old(out)@) + match s {
            Some(x) => seq![x@],
            None => Seq::<SymbolView>::empty(),
        },
{
    match s {
        Some(x) => {
            let ghost before = symbols_view(out@);
            push_symbol(out, x);
            assert(symbols_view(out@) =~= before + seq![x@]);
        },
        None => {
            assert(symbols_view(out@) =~= symbols_view(out@) + Seq::<SymbolView>::empty());
        },
    }
}

pub fn push_pair(out: &mut Vec<(String, String)>, a: String, b: String)
    ensures
        pairs_view(final(out)@) == pairs_view(old(out)@).push((a@, b@)),
{
    let ghost before = pairs_view(out@);
    out.push((a, b));
    assert(pairs_view(out@) =~= before.push((a@, b@)));
}

pub open spec fn arrow_return(n: SyntaxNode) -> Option<Seq<char>> {
    match field_child(n, "return_type"@) {
        Some(r) => match trimmed_text(r) {
            Some(t) => Some(trim(strip_leading(t, "->"@))),
            None => None,
        },
        None => None,
    }
}

/// The trimmed text of the child under field `f`.
pub open spec fn field_trimmed(n: SyntaxNode, f: Seq<char>) -> Option<Seq<char>> {
    match field_child(n, f) {
        Some(c) => trimmed_text(c),
        None => None,
    }
}

/// The text of the child under field `name`.
pub open spec fn name_text(n: SyntaxNode) -> Option<Seq<char>> {
    match field_child(n, "name"@) {
        Some(c) => text_of(c),
        None => None,
    }
}

pub fn trimmed_field(n: &SyntaxNode, f: &str) -> (r: Option<String>)
    ensures
        opt_string_view(r) == field_trimmed(*n, f@),
{
    match field_of(n, f) {
        Some(c) => node_trimmed_text(c),
        None => None,
    }
}

pub fn name_of(n: &SyntaxNode) -> (r: Option<String>)
    ensures
        opt_string_view(r) == name_text(*n),
{
    match field_of(n, "name") {
        Some(c) => node_text(c),
        None => None,
    }
}

pub fn arrow_return_of(n: &SyntaxNode) -> (r: Option<String>)
    ensures
        opt_string_view(r) == arrow_return(*n),
{
    match field_of(n, "return_type") {
        Some(c) => match node_trimmed_text(c) {
            Some(t) => {
                let s = strip_leading_string(&t, "->");
                Some(crate::text::trim_string(s.as_str()))
            },
            None => None,
        },
        None => None,
    }
}

} // verus!
