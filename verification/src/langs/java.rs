//! Java: method and constructor declarations, and field and local variable
//! declarations.
use vstd::prelude::*;
use crate::extract::{
    field_trimmed, function_symbol, make_function, make_variable, opt_seq, push_opt_symbol, push_pair,
    push_symbol, trimmed_field, variable_symbol,
};
use crate::symbols::{opt_string_view, pairs_view, symbols_view, SymbolInfo, SymbolView};
use crate::syntax::{
    field_child, field_of, kind_is, lines_of_node, node_kind_is, node_lines, node_trimmed_text, trimmed_text,
    used_identifiers, used_identifiers_of, SyntaxNode,
};

verus! {

/// A `formal_parameter` with a name, and its type (`any` where it has none).
pub open spec fn java_param(c: SyntaxNode) -> Seq<(Seq<char>, Seq<char>)> {
    if kind_is(c, "formal_parameter"@) {
        let ty = match field_trimmed(c, "type"@) {
            Some(t) => t,
            None => "any"@,
        };
        match field_trimmed(c, "name"@) {
            Some(name) => if name.len() > 0 { seq![(name, ty)] } else { seq![] },
            None => seq![],
        }
    } else {
        seq![]
    }
}

pub open spec fn java_param_list(cs: Seq<SyntaxNode>) -> Seq<(Seq<char>, Seq<char>)>
    decreases cs.len(),
{
    if cs.len() == 0 {
        seq![]
    } else {
        java_param_list(cs.drop_last()) + java_param(cs.last())
    }
}

pub open spec fn java_params(n: SyntaxNode) -> Seq<(Seq<char>, Seq<char>)> {
    match field_child(n, "parameters"@) {
        Some(p) => java_param_list(p.children@),
        None => seq![],
    }
}

/// A method declares its return type under field `type`; a constructor has
/// none.
pub open spec fn java_method(n: SyntaxNode) -> Option<SymbolView> {
    match field_trimmed(n, "name"@) {
        Some(name) => Some(function_symbol(name, java_params(n), field_trimmed(n, "type"@), lines_of_node(n), used_identifiers(n, name))),
        None => None,
    }
}

pub open spec fn java_declarator(n: SyntaxNode, ty: Option<Seq<char>>, c: SyntaxNode) -> Seq<SymbolView> {
    if kind_is(c, "variable_declarator"@) {
        match field_trimmed(c, "name"@) {
            Some(name) => seq![variable_symbol(name, ty, lines_of_node(n), used_identifiers(c, name))],
            None => seq![],
        }
    } else {
        seq![]
    }
}

pub open spec fn java_declarator_list(n: SyntaxNode, ty: Option<Seq<char>>, cs: Seq<SyntaxNode>) -> Seq<SymbolView>
    decreases cs.len(),
{
    if cs.len() == 0 {
        seq![]
    } else {
        java_declarator_list(n, ty, cs.drop_last()) + java_declarator(n, ty, cs.last())
    }
}

/// The symbols that a node of a Java tree defines itself.
pub open spec fn java_own(n: SyntaxNode) -> Seq<SymbolView> {
    if kind_is(n, "method_declaration"@) || kind_is(n, "constructor_declaration"@) {
        opt_seq(java_method(n))
    } else if kind_is(n, "field_declaration"@) || kind_is(n, "local_variable_declaration"@) {
        java_declarator_list(n, field_trimmed(n, "type"@), n.children@)
    } else {
        seq![]
    }
}

fn java_params_of(n: &SyntaxNode) -> (r: Vec<(String, String)>)
    ensures
        pairs_view(r@) == java_params(*n),
{
    let mut out: Vec<(String, String)> = Vec::new();
    match field_of(n, "parameters") {
        Some(p) => {
            let mut i: usize = 0;
            while i < p.children.len()
                invariant
                    i <= p.children@.len(),
                    pairs_view(out@) == java_param_list(p.children@.take(i as int)),
                decreases p.children@.len() - i,
            {
                let c = &p.children[i];
                assert(p.children@.take(i + 1).drop_last() == p.children@.take(i as int));
                let ghost before = pairs_view(out@);
                if node_kind_is(c, "formal_parameter") {
                    let ty = match trimmed_field(c, "type") {
                        Some(t) => t,
                        None => String::from_str("any"),
                    };
                    if let Some(name) = trimmed_field(c, "name") {
                        if !name.as_str().is_empty() {
                            push_pair(&mut out, name, ty);
                        }
                    }
                }
                assert(pairs_view(out@) =~= before + java_param(p.children@[i as int]));
                i = i + 1;
            }
            assert(p.children@.take(p.children@.len() as int) == p.children@);
        },
        None => {
            assert(pairs_view(out@) =~= Seq::<(Seq<char>, Seq<char>)>::empty());
        },
    }
    out
}

/// Adds the symbols that node `n` of a Java tree defines itself.
pub fn java_own_of(n: &SyntaxNode, out: &mut Vec<SymbolInfo>)
    ensures
        symbols_view(final(out)@) == symbols_view(old(out)@) + java_own(*n),
{
    if node_kind_is(n, "method_declaration") || node_kind_is(n, "constructor_declaration") {
        let s = match trimmed_field(n, "name") {
            Some(name) => {
                let used = used_identifiers_of(n, &name);
                Some(make_function(name, java_params_of(n), trimmed_field(n, "type"), node_lines(n), used))
            },
            None => None,
        };
        push_opt_symbol(out, s);
    } else if node_kind_is(n, "field_declaration") || node_kind_is(n, "local_variable_declaration") {
        let ty = trimmed_field(n, "type");
        let ghost start = symbols_view(out@);
        let mut i: usize = 0;
        assert(java_declarator_list(*n, opt_string_view(ty), n.children@.take(0)) =~= Seq::<SymbolView>::empty());
        while i < n.children.len()
            invariant
                i <= n.children@.len(),
                symbols_view(out@) == start + java_declarator_list(*n, opt_string_view(ty), n.children@.take(i as int)),
            decreases n.children@.len() - i,
        {
            let c = &n.children[i];
            assert(n.children@.take(i + 1).drop_last() == n.children@.take(i as int));
            assert(n.children@.take(i + 1).last() == n.children@[i as int]);
            let ghost before = symbols_view(out@);
            if node_kind_is(c, "variable_declarator") {
                if let Some(name) = trimmed_field(c, "name") {
                    let used = used_identifiers_of(c, &name);
                    let tyc = crate::symbols::copy_opt_string(&ty);
                    push_symbol(out, make_variable(name, tyc, node_lines(n), used));
                }
            }
            assert(symbols_view(out@) =~= before + java_declarator(*n, opt_string_view(ty), n.children@[i as int]));
            i = i + 1;
        }
        assert(n.children@.take(n.children@.len() as int) == n.children@);
    } else {
        assert(symbols_view(out@) =~= symbols_view(out@) + Seq::<SymbolView>::empty());
    }
}

} // verus!
