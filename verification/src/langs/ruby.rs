//! Ruby: methods and assignments to local and instance variables.
use vstd::prelude::*;
use crate::extract::{
    field_trimmed, function_symbol, make_function, make_variable, opt_seq, push_opt_symbol, push_pair,
    trimmed_field, variable_symbol,
};
use crate::symbols::{pairs_view, symbols_view, SymbolInfo, SymbolView};
use crate::syntax::{
    field_child, field_of, kind_is, lines_of_node, node_kind_is, node_lines, node_trimmed_text, trimmed_text,
    used_identifiers, used_identifiers_of, SyntaxNode,
};

verus! {

/// An identifier as a parameter of unknown type.
pub open spec fn rb_ident_param(c: SyntaxNode) -> Seq<(Seq<char>, Seq<char>)> {
    if kind_is(c, "identifier"@) {
        match trimmed_text(c) {
            Some(name) => seq![(name, "any"@)],
            None => seq![],
        }
    } else {
        seq![]
    }
}

pub open spec fn rb_ident_params(cs: Seq<SyntaxNode>) -> Seq<(Seq<char>, Seq<char>)>
    decreases cs.len(),
{
    if cs.len() == 0 {
        seq![]
    } else {
        rb_ident_params(cs.drop_last()) + rb_ident_param(cs.last())
    }
}

pub open spec fn rb_param(c: SyntaxNode) -> Seq<(Seq<char>, Seq<char>)> {
    if kind_is(c, "identifier"@) {
        rb_ident_param(c)
    } else if kind_is(c, "formal_parameters"@) {
        rb_ident_params(c.children@)
    } else {
        seq![]
    }
}

pub open spec fn rb_param_list(cs: Seq<SyntaxNode>) -> Seq<(Seq<char>, Seq<char>)>
    decreases cs.len(),
{
    if cs.len() == 0 {
        seq![]
    } else {
        rb_param_list(cs.drop_last()) + rb_param(cs.last())
    }
}

pub open spec fn rb_params(n: SyntaxNode) -> Seq<(Seq<char>, Seq<char>)> {
    match field_child(n, "parameters"@) {
        Some(p) => rb_param_list(p.children@),
        None => seq![],
    }
}

pub open spec fn rb_method(n: SyntaxNode) -> Option<SymbolView> {
    match field_trimmed(n, "name"@) {
        Some(name) => Some(function_symbol(name, rb_params(n), Some("any"@), lines_of_node(n), used_identifiers(n, name))),
        None => None,
    }
}

pub open spec fn rb_variable(n: SyntaxNode) -> Option<SymbolView> {
    match field_child(n, "left"@) {
        Some(left) => match trimmed_text(left) {
            Some(name) => if kind_is(left, "identifier"@) || kind_is(left, "instance_variable"@) {
                Some(variable_symbol(name, Some("any"@), lines_of_node(n), used_identifiers(n, name)))
            } else {
                None
            },
            None => None,
        },
        None => None,
    }
}

/// The symbols that a node of a Ruby tree defines itself.
pub open spec fn rb_own(n: SyntaxNode) -> Seq<SymbolView> {
    if kind_is(n, "method"@) {
        opt_seq(rb_method(n))
    } else if kind_is(n, "assignment"@) {
        opt_seq(rb_variable(n))
    } else {
        seq![]
    }
}

fn push_ident_param(out: &mut Vec<(String, String)>, c: &SyntaxNode)
    ensures
        pairs_view(final(out)@) == pairs_view(old(out)@) + rb_ident_param(*c),
{
    let ghost before = pairs_view(out@);
    if node_kind_is(c, "identifier") {
        if let Some(name) = node_trimmed_text(c) {
            push_pair(out, name, String::from_str("any"));
        }
    }
    assert(pairs_view(out@) =~= before + rb_ident_param(*c));
}

fn rb_params_of(n: &SyntaxNode) -> (r: Vec<(String, String)>)
    ensures
        pairs_view(r@) == rb_params(*n),
{
    let mut out: Vec<(String, String)> = Vec::new();
    match field_of(n, "parameters") {
        Some(p) => {
            let mut i: usize = 0;
            while i < p.children.len()
                invariant
                    i <= p.children@.len(),
                    pairs_view(out@) == rb_param_list(p.children@.take(i as int)),
                decreases p.children@.len() - i,
            {
                let c = &p.children[i];
                assert(p.children@.take(i + 1).drop_last() == p.children@.take(i as int));
                let ghost before = pairs_view(out@);
                if node_kind_is(c, "identifier") {
                    push_ident_param(&mut out, c);
                } else if node_kind_is(c, "formal_parameters") {
                    let mut k: usize = 0;
                    while k < c.children.len()
                        invariant
                            k <= c.children@.len(),
                            pairs_view(out@) == before + rb_ident_params(c.children@.take(k as int)),
                        decreases c.children@.len() - k,
                    {
                        assert(c.children@.take(k + 1).drop_last() == c.children@.take(k as int));
                        push_ident_param(&mut out, &c.children[k]);
                        k = k + 1;
                    }
                    assert(c.children@.take(c.children@.len() as int) == c.children@);
                }
                assert(pairs_view(out@) =~= before + rb_param(p.children@[i as int]));
                i = i + 1;
            }
            assert(p.children@.take(p.children@.len() as int) == p.children@);
        },
        None => {
            assert(pairs_view(out@) =~= Seq::<(Seq<char>, Seq<char>)>::empty());
        },
    }
    out
}

/// Adds the symbols that node `n` of a Ruby tree defines itself.
pub fn rb_own_of(n: &SyntaxNode, out: &mut Vec<SymbolInfo>)
    ensures
        symbols_view(final(out)@) == symbols_view(old(out)@) + rb_own(*n),
{
    proof { reveal_strlit("any"); }
    if node_kind_is(n, "method") {
        let s = match trimmed_field(n, "name") {
            Some(name) => {
                let used = used_identifiers_of(n, &name);
                Some(make_function(name, rb_params_of(n), Some(String::from_str("any")), node_lines(n), used))
            },
            None => None,
        };
        push_opt_symbol(out, s);
    } else if node_kind_is(n, "assignment") {
        let s = match field_of(n, "left") {
            Some(left) => match node_trimmed_text(left) {
                Some(name) => if node_kind_is(left, "identifier") || node_kind_is(left, "instance_variable") {
                    let used = used_identifiers_of(n, &name);
                    Some(make_variable(name, Some(String::from_str("any")), node_lines(n), used))
                } else {
                    None
                },
                None => None,
            },
            None => None,
        };
        push_opt_symbol(out, s);
    } else {
        assert(symbols_view(out@) =~= symbols_view(out@) + Seq::<SymbolView>::empty());
    }
}

} // verus!
