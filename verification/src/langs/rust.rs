//! Rust: function items, and `const` and `static` items.
use vstd::prelude::*;
use crate::extract::{
    arrow_return, arrow_return_of, field_trimmed, function_symbol, make_function, make_variable, name_of,
    name_text, opt_seq, push_opt_symbol, push_pair, trimmed_field, variable_symbol,
};
use crate::symbols::{pairs_view, symbols_view, SymbolInfo, SymbolView};
use crate::syntax::{
    field_child, field_of, kind_is, lines_of_node, node_kind_is, node_lines, node_trimmed_text, trimmed_text,
    used_identifiers, used_identifiers_of, SyntaxNode,
};

verus! {

pub open spec fn rust_param(c: SyntaxNode) -> Seq<(Seq<char>, Seq<char>)> {
    if kind_is(c, "parameter"@) {
        match (field_child(c, "pattern"@), field_child(c, "type"@)) {
            (Some(p), Some(t)) => match (trimmed_text(p), trimmed_text(t)) {
                (Some(a), Some(b)) => seq![(a, b)],
                _ => seq![],
            },
            _ => seq![],
        }
    } else {
        seq![]
    }
}

pub open spec fn rust_param_list(cs: Seq<SyntaxNode>) -> Seq<(Seq<char>, Seq<char>)>
    decreases cs.len(),
{
    if cs.len() == 0 {
        seq![]
    } else {
        rust_param_list(cs.drop_last()) + rust_param(cs.last())
    }
}

/// The parameters of a Rust function: each `parameter` with a pattern and a type.
pub open spec fn rust_params(n: SyntaxNode) -> Seq<(Seq<char>, Seq<char>)> {
    match field_child(n, "parameters"@) {
        Some(p) => rust_param_list(p.children@),
        None => seq![],
    }
}

/// A return type written after `->`.
pub open spec fn rust_function(n: SyntaxNode) -> Option<SymbolView> {
    match name_text(n) {
        Some(name) => Some(function_symbol(name, rust_params(n), arrow_return(n), lines_of_node(n), used_identifiers(n, name))),
        None => None,
    }
}

pub open spec fn rust_variable(n: SyntaxNode) -> Option<SymbolView> {
    match name_text(n) {
        Some(name) => Some(variable_symbol(name, field_trimmed(n, "type"@), lines_of_node(n), used_identifiers(n, name))),
        None => None,
    }
}

/// The symbols that a node of a Rust tree defines itself: a function item,
/// or a `const` or `static` item.
pub open spec fn rust_own(n: SyntaxNode) -> Seq<SymbolView> {
    if kind_is(n, "function_item"@) {
        opt_seq(rust_function(n))
    } else if kind_is(n, "const_item"@) || kind_is(n, "static_item"@) {
        opt_seq(rust_variable(n))
    } else {
        seq![]
    }
}

fn rust_params_of(n: &SyntaxNode) -> (r: Vec<(String, String)>)
    ensures
        pairs_view(r@) == rust_params(*n),
{
    let mut out: Vec<(String, String)> = Vec::new();
    match field_of(n, "parameters") {
        Some(p) => {
            let mut i: usize = 0;
            while i < p.children.len()
                invariant
                    i <= p.children@.len(),
                    pairs_view(out@) == rust_param_list(p.children@.take(i as int)),
                decreases p.children@.len() - i,
            {
                let c = &p.children[i];
                assert(p.children@.take(i + 1).drop_last() == p.children@.take(i as int));
                let ghost before = pairs_view(out@);
                if node_kind_is(c, "parameter") {
                    match (field_of(c, "pattern"), field_of(c, "type")) {
                        (Some(pn), Some(tn)) => match (node_trimmed_text(pn), node_trimmed_text(tn)) {
                            (Some(a), Some(b)) => {
                                push_pair(&mut out, a, b);
                            },
                            _ => {},
                        },
                        _ => {},
                    }
                }
                assert(pairs_view(out@) =~= before + rust_param(p.children@[i as int]));
                i = i + 1;
            }
            assert(p.children@.take(p.children@.len() as int) == p.children@);
        },
        None => {
            assert(pairs_view(out@) =~= Seq::<(Seq<char>, Seq<char>)>::empty());
        },
    }
    out
}

pub fn rust_own_of(n: &SyntaxNode, out: &mut Vec<SymbolInfo>)
    ensures
        symbols_view(final(out)@) == symbols_view(old(out)@) + rust_own(*n),
{
    if node_kind_is(n, "function_item") {
        let s = match name_of(n) {
            Some(name) => {
                let used = used_identifiers_of(n, &name);
                Some(make_function(name, rust_params_of(n), arrow_return_of(n), node_lines(n), used))
            },
            None => None,
        };
        push_opt_symbol(out, s);
    } else if node_kind_is(n, "const_item") || node_kind_is(n, "static_item") {
        let s = match name_of(n) {
            Some(name) => {
                let used = used_identifiers_of(n, &name);
                Some(make_variable(name, trimmed_field(n, "type"), node_lines(n), used))
            },
            None => None,
        };
        push_opt_symbol(out, s);
    } else {
        assert(symbols_view(out@) =~= symbols_view(out@) + Seq::<SymbolView>::empty());
    }
}

} // verus!
