//! Python: function definitions and assignments.
use vstd::prelude::*;
use crate::extract::{
    arrow_return, arrow_return_of, field_trimmed, function_symbol, make_function, make_variable, name_of,
    name_text, opt_seq, push_opt_symbol, push_pair, trimmed_field, variable_symbol,
};
use crate::symbols::{opt_string_view, pairs_view, symbols_view, SymbolInfo, SymbolView};
use crate::syntax::{
    field_child, field_of, kind_is, lines_of_node, node_kind_is, node_lines, node_text, text_of,
    trimmed_text, used_identifiers, used_identifiers_of, SyntaxNode,
};
use crate::text::trim;

verus! {

/// The trimmed text of the last identifier among `cs`.
pub open spec fn last_identifier(cs: Seq<SyntaxNode>) -> Option<Seq<char>>
    decreases cs.len(),
{
    if cs.len() == 0 {
        None
    } else if kind_is(cs.last(), "identifier"@) && cs.last().text is Some {
        Some(trim(cs.last().text->0@))
    } else {
        last_identifier(cs.drop_last())
    }
}

pub open spec fn py_param(c: SyntaxNode) -> Seq<(Seq<char>, Seq<char>)> {
    if kind_is(c, "typed_parameter"@) {
        match (last_identifier(c.children@), field_trimmed(c, "type"@)) {
            (Some(name), Some(ty)) => seq![(name, ty)],
            _ => seq![],
        }
    } else if kind_is(c, "identifier"@) {
        match trimmed_text(c) {
            Some(name) => seq![(name, "any"@)],
            None => seq![],
        }
    } else {
        seq![]
    }
}

pub open spec fn py_param_list(cs: Seq<SyntaxNode>) -> Seq<(Seq<char>, Seq<char>)>
    decreases cs.len(),
{
    if cs.len() == 0 {
        seq![]
    } else {
        py_param_list(cs.drop_last()) + py_param(cs.last())
    }
}

pub open spec fn py_params(n: SyntaxNode) -> Seq<(Seq<char>, Seq<char>)> {
    match field_child(n, "parameters"@) {
        Some(p) => py_param_list(p.children@),
        None => seq![],
    }
}

pub open spec fn py_function(n: SyntaxNode) -> Option<SymbolView> {
    match name_text(n) {
        Some(name) => Some(function_symbol(name, py_params(n), arrow_return(n), lines_of_node(n), used_identifiers(n, name))),
        None => None,
    }
}

/// The name that the left side of an assignment binds.
pub open spec fn py_target(left: SyntaxNode) -> Option<Seq<char>> {
    if kind_is(left, "typed_parameter"@) {
        name_text(left)
    } else if kind_is(left, "identifier"@) {
        text_of(left)
    } else {
        None
    }
}

pub open spec fn py_variable(n: SyntaxNode) -> Option<SymbolView> {
    match field_child(n, "left"@) {
        Some(left) => match py_target(left) {
            Some(name) => Some(variable_symbol(name, field_trimmed(n, "type"@), lines_of_node(n), used_identifiers(n, name))),
            None => None,
        },
        None => None,
    }
}

/// The symbols that a node of a Python tree defines itself.
pub open spec fn py_own(n: SyntaxNode) -> Seq<SymbolView> {
    if kind_is(n, "function_definition"@) {
        opt_seq(py_function(n))
    } else if kind_is(n, "assignment"@) {
        opt_seq(py_variable(n))
    } else {
        seq![]
    }
}

fn last_identifier_of(n: &SyntaxNode) -> (r: Option<String>)
    ensures
        opt_string_view(r) == last_identifier(n.children@),
{
    let mut r: Option<String> = None;
    let mut i: usize = 0;
    while i < n.children.len()
        invariant
            i <= n.children@.len(),
            opt_string_view(r) == last_identifier(n.children@.take(i as int)),
        decreases n.children@.len() - i,
    {
        let c = &n.children[i];
        assert(n.children@.take(i + 1).drop_last() == n.children@.take(i as int));
        assert(n.children@.take(i + 1).last() == n.children@[i as int]);
        if node_kind_is(c, "identifier") {
            if let Some(t) = &c.text {
                r = Some(crate::text::trim_string(t.as_str()));
            }
        }
        i = i + 1;
    }
    assert(n.children@.take(n.children@.len() as int) == n.children@);
    r
}

fn py_params_of(n: &SyntaxNode) -> (r: Vec<(String, String)>)
    ensures
        pairs_view(r@) == py_params(*n),
{
    let mut out: Vec<(String, String)> = Vec::new();
    match field_of(n, "parameters") {
        Some(p) => {
            let mut i: usize = 0;
            while i < p.children.len()
                invariant
                    i <= p.children@.len(),
                    pairs_view(out@) == py_param_list(p.children@.take(i as int)),
                decreases p.children@.len() - i,
            {
                let c = &p.children[i];
                assert(p.children@.take(i + 1).drop_last() == p.children@.take(i as int));
                let ghost before = pairs_view(out@);
                if node_kind_is(c, "typed_parameter") {
                    match (last_identifier_of(c), trimmed_field(c, "type")) {
                        (Some(name), Some(ty)) => push_pair(&mut out, name, ty),
                        _ => {},
                    }
                } else if node_kind_is(c, "identifier") {
                    if let Some(t) = &c.text {
                        push_pair(&mut out, crate::text::trim_string(t.as_str()), String::from_str("any"));
                    }
                }
                assert(pairs_view(out@) =~= before + py_param(p.children@[i as int]));
                i = i + 1;
            }
            assert(p.children@.take(p.children@.len() as int) == p.children@);
        },
        None => {
            assert(pairs_view(out@) =~= Seq::<(Seq<char>, Seq<char>)>::empty());
        },
    }
    out
}

/// Adds the symbols that node `n` of a Python tree defines itself.
pub fn py_own_of(n: &SyntaxNode, out: &mut Vec<SymbolInfo>)
    ensures
        symbols_view(final(out)@) == symbols_view(old(out)@) + py_own(*n),
{
    if node_kind_is(n, "function_definition") {
        let s = match name_of(n) {
            Some(name) => {
                let used = used_identifiers_of(n, &name);
                Some(make_function(name, py_params_of(n), arrow_return_of(n), node_lines(n), used))
            },
            None => None,
        };
        push_opt_symbol(out, s);
    } else if node_kind_is(n, "assignment") {
        let s = match field_of(n, "left") {
            Some(left) => {
                let target = if node_kind_is(left, "typed_parameter") {
                    name_of(left)
                } else if node_kind_is(left, "identifier") {
                    node_text(left)
                } else {
                    None
                };
                match target {
                    Some(name) => {
                        let used = used_identifiers_of(n, &name);
                        Some(make_variable(name, trimmed_field(n, "type"), node_lines(n), used))
                    },
                    None => None,
                }
            },
            None => None,
        };
        push_opt_symbol(out, s);
    } else {
        assert(symbols_view(out@) =~= symbols_view(out@) + Seq::<SymbolView>::empty());
    }
}

} // verus!
