//! TypeScript and JavaScript: function declarations, method definitions, and
//! the declarators of `let`, `const` and `var` declarations.
use vstd::prelude::*;
use crate::extract::{
    function_symbol, make_function, make_variable, name_of, name_text, opt_seq, push_opt_symbol, push_pair,
    push_symbol, variable_symbol,
};
use crate::symbols::{opt_string_view, pairs_view, symbols_view, SymbolInfo, SymbolView};
use crate::syntax::{
    field_child, field_of, kind_is, lines_of_node, node_kind_is, node_lines, strip_leading,
    strip_leading_string, text_of, text_or, used_identifiers, used_identifiers_of, SyntaxNode,
};
use crate::text::trim;

verus! {

/// A type annotation `: T` read as `T`.
pub open spec fn annotation(t: Seq<char>) -> Seq<char> {
    trim(strip_leading(trim(t), ":"@))
}

fn annotation_of(t: &String) -> (r: String)
    ensures
        r@ == annotation(t@),
{
    let a = crate::text::trim_string(t.as_str());
    let b = strip_leading_string(&a, ":");
    crate::text::trim_string(b.as_str())
}

/// The annotated type of a parameter; `any` where it has none.
pub open spec fn ts_param_type(c: SyntaxNode) -> Seq<char> {
    match field_child(c, "type"@) {
        Some(t) => match text_of(t) {
            Some(x) => annotation(x),
            None => "any"@,
        },
        None => "any"@,
    }
}

pub open spec fn ts_param(c: SyntaxNode) -> Seq<(Seq<char>, Seq<char>)> {
    if kind_is(c, "required_parameter"@) || kind_is(c, "optional_parameter"@) || kind_is(c, "formal_parameter"@) {
        match field_child(c, "pattern"@) {
            Some(p) => seq![(trim(text_or(p, ""@)), ts_param_type(c))],
            None => seq![],
        }
    } else {
        seq![]
    }
}

pub open spec fn ts_param_list(cs: Seq<SyntaxNode>) -> Seq<(Seq<char>, Seq<char>)>
    decreases cs.len(),
{
    if cs.len() == 0 {
        seq![]
    } else {
        ts_param_list(cs.drop_last()) + ts_param(cs.last())
    }
}

pub open spec fn ts_params(n: SyntaxNode) -> Seq<(Seq<char>, Seq<char>)> {
    match field_child(n, "parameters"@) {
        Some(p) => ts_param_list(p.children@),
        None => seq![],
    }
}

pub open spec fn annotated(n: SyntaxNode, f: Seq<char>) -> Option<Seq<char>> {
    match field_child(n, f) {
        Some(t) => match text_of(t) {
            Some(x) => Some(annotation(x)),
            None => None,
        },
        None => None,
    }
}

pub open spec fn ts_function(n: SyntaxNode) -> Option<SymbolView> {
    match name_text(n) {
        Some(name) => Some(function_symbol(name, ts_params(n), annotated(n, "return_type"@), lines_of_node(n), used_identifiers(n, name))),
        None => None,
    }
}

/// A `variable_declarator` child of declaration `n`.
pub open spec fn ts_declarator(n: SyntaxNode, c: SyntaxNode) -> Seq<SymbolView> {
    if kind_is(c, "variable_declarator"@) {
        match field_child(c, "name"@) {
            Some(nm) => match text_of(nm) {
                Some(t) => seq![variable_symbol(trim(t), annotated(c, "type"@), lines_of_node(n), used_identifiers(c, trim(t)))],
                None => seq![],
            },
            None => seq![],
        }
    } else {
        seq![]
    }
}

pub open spec fn ts_declarators(n: SyntaxNode, cs: Seq<SyntaxNode>) -> Seq<SymbolView>
    decreases cs.len(),
{
    if cs.len() == 0 {
        seq![]
    } else {
        ts_declarators(n, cs.drop_last()) + ts_declarator(n, cs.last())
    }
}

/// The symbols that a node of a TypeScript tree defines itself.
pub open spec fn ts_own(n: SyntaxNode) -> Seq<SymbolView> {
    if kind_is(n, "function_declaration"@) || kind_is(n, "method_definition"@) {
        opt_seq(ts_function(n))
    } else if kind_is(n, "lexical_declaration"@) || kind_is(n, "variable_declaration"@) {
        ts_declarators(n, n.children@)
    } else {
        seq![]
    }
}

fn annotated_of(n: &SyntaxNode, f: &str) -> (r: Option<String>)
    ensures
        opt_string_view(r) == annotated(*n, f@),
{
    match field_of(n, f) {
        Some(t) => match &t.text {
            Some(x) => Some(annotation_of(x)),
            None => None,
        },
        None => None,
    }
}

fn ts_params_of(n: &SyntaxNode) -> (r: Vec<(String, String)>)
    ensures
        pairs_view(r@) == ts_params(*n),
{
    let mut out: Vec<(String, String)> = Vec::new();
    match field_of(n, "parameters") {
        Some(p) => {
            let mut i: usize = 0;
            while i < p.children.len()
                invariant
                    i <= p.children@.len(),
                    pairs_view(out@) == ts_param_list(p.children@.take(i as int)),
                decreases p.children@.len() - i,
            {
                let c = &p.children[i];
                assert(p.children@.take(i + 1).drop_last() == p.children@.take(i as int));
                let ghost before = pairs_view(out@);
                if node_kind_is(c, "required_parameter") || node_kind_is(c, "optional_parameter")
                    || node_kind_is(c, "formal_parameter") {
                    if let Some(pn) = field_of(c, "pattern") {
                        let pat = crate::syntax::node_trimmed_text_or(pn, "");
                        let ty = match annotated_of(c, "type") {
                            Some(t) => t,
                            None => String::from_str("any"),
                        };
                        push_pair(&mut out, pat, ty);
                    }
                }
                assert(pairs_view(out@) =~= before + ts_param(p.children@[i as int]));
                i = i + 1;
            }
            assert(p.children@.take(p.children@.len() as int) == p.children@);
        },
        None => {
            assert(pairs_view(out@) =~= Seq::<(Seq<char>, Seq<char>)>::empty());
        },
    }
    out
}

/// Adds the symbols that node `n` of a TypeScript tree defines itself.
pub fn ts_own_of(n: &SyntaxNode, out: &mut Vec<SymbolInfo>)
    ensures
        symbols_view(final(out)@) == symbols_view(old(out)@) + ts_own(*n),
{
    if node_kind_is(n, "function_declaration") || node_kind_is(n, "method_definition") {
        let s = match name_of(n) {
            Some(name) => {
                let used = used_identifiers_of(n, &name);
                Some(make_function(name, ts_params_of(n), annotated_of(n, "return_type"), node_lines(n), used))
            },
            None => None,
        };
        push_opt_symbol(out, s);
    } else if node_kind_is(n, "lexical_declaration") || node_kind_is(n, "variable_declaration") {
        let ghost start = symbols_view(out@);
        let mut i: usize = 0;
        assert(ts_declarators(*n, n.children@.take(0)) =~= Seq::<SymbolView>::empty());
        while i < n.children.len()
            invariant
                i <= n.children@.len(),
                symbols_view(out@) == start + ts_declarators(*n, n.children@.take(i as int)),
            decreases n.children@.len() - i,
        {
            let c = &n.children[i];
            assert(n.children@.take(i + 1).drop_last() == n.children@.take(i as int));
            let ghost before = symbols_view(out@);
            if node_kind_is(c, "variable_declarator") {
                if let Some(nm) = field_of(c, "name") {
                    if let Some(t) = &nm.text {
                        let name = crate::text::trim_string(t.as_str());
                        let used = used_identifiers_of(c, &name);
                        push_symbol(out, make_variable(name, annotated_of(c, "type"), node_lines(n), used));
                    }
                }
            }
            assert(symbols_view(out@) =~= before + ts_declarator(*n, n.children@[i as int]));
            i = i + 1;
        }
        assert(n.children@.take(n.children@.len() as int) == n.children@);
    } else {
        assert(symbols_view(out@) =~= symbols_view(out@) + Seq::<SymbolView>::empty());
    }
}

} // verus!
