//! C#: method declarations, and variable and field declarations.
use vstd::prelude::*;
use crate::extract::{
    field_trimmed, function_symbol, make_function, make_variable, opt_seq, push_opt_symbol, push_pair,
    push_symbol, trimmed_field, variable_symbol,
};
use crate::symbols::{opt_string_view, pairs_view, symbols_view, SymbolInfo, SymbolView};
use crate::syntax::{
    field_child, field_of, kind_is, lines_of_node, node_kind_is, node_lines, node_trimmed_text, trimmed_text,
    used_identifiers, used_identifiers_of, SyntaxNode,
};

verus! {

pub open spec fn cs_param(c: SyntaxNode) -> Seq<(Seq<char>, Seq<char>)> {
    if kind_is(c, "parameter"@) {
        let ty = match field_trimmed(c, "type"@) {
            Some(t) => t,
            None => "any"@,
        };
        match field_trimmed(c, "name"@) {
            Some(name) => if name.len() > 0 { seq![(name, ty)] } else { seq![] },
            None => seq![],
        }
    } else {
        seq![]
    }
}

pub open spec fn cs_param_list(cs: Seq<SyntaxNode>) -> Seq<(Seq<char>, Seq<char>)>
    decreases cs.len(),
{
    if cs.len() == 0 {
        seq![]
    } else {
        cs_param_list(cs.drop_last()) + cs_param(cs.last())
    }
}

pub open spec fn cs_params(n: SyntaxNode) -> Seq<(Seq<char>, Seq<char>)> {
    match field_child(n, "parameters"@) {
        Some(p) => cs_param_list(p.children@),
        None => seq![],
    }
}

pub open spec fn cs_method(n: SyntaxNode) -> Option<SymbolView> {
    match field_trimmed(n, "name"@) {
        Some(name) => Some(function_symbol(name, cs_params(n), field_trimmed(n, "type"@), lines_of_node(n), used_identifiers(n, name))),
        None => None,
    }
}

/// The node that holds the declarators: the `declaration` field of a field
/// declaration where it has one, else the node itself.
pub open spec fn cs_target(n: SyntaxNode) -> SyntaxNode {
    if kind_is(n, "field_declaration"@) {
        match field_child(n, "declaration"@) {
            Some(d) => d,
            None => n,
        }
    } else {
        n
    }
}

/// The node that names a declarator: its `name` field, else its first child.
pub open spec fn cs_declarator_name(c: SyntaxNode) -> Option<SyntaxNode> {
    match field_child(c, "name"@) {
        Some(x) => Some(x),
        None => if c.children@.len() > 0 { Some(c.children@[0]) } else { None },
    }
}

pub open spec fn cs_declarator(n: SyntaxNode, ty: Option<Seq<char>>, c: SyntaxNode) -> Seq<SymbolView> {
    if kind_is(c, "variable_declarator"@) {
        match cs_declarator_name(c) {
            Some(x) => match trimmed_text(x) {
                Some(name) => seq![variable_symbol(name, ty, lines_of_node(n), used_identifiers(c, name))],
                None => seq![],
            },
            None => seq![],
        }
    } else {
        seq![]
    }
}

pub open spec fn cs_declarator_list(n: SyntaxNode, ty: Option<Seq<char>>, cs: Seq<SyntaxNode>) -> Seq<SymbolView>
    decreases cs.len(),
{
    if cs.len() == 0 {
        seq![]
    } else {
        cs_declarator_list(n, ty, cs.drop_last()) + cs_declarator(n, ty, cs.last())
    }
}

/// The symbols that a node of a C# tree defines itself.
pub open spec fn cs_own(n: SyntaxNode) -> Seq<SymbolView> {
    if kind_is(n, "method_declaration"@) {
        opt_seq(cs_method(n))
    } else if kind_is(n, "variable_declaration"@) || kind_is(n, "field_declaration"@) {
        cs_declarator_list(n, field_trimmed(cs_target(n), "type"@), cs_target(n).children@)
    } else {
        seq![]
    }
}

fn cs_params_of(n: &SyntaxNode) -> (r: Vec<(String, String)>)
    ensures
        pairs_view(r@) == cs_params(*n),
{
    let mut out: Vec<(String, String)> = Vec::new();
    match field_of(n, "parameters") {
        Some(p) => {
            let mut i: usize = 0;
            while i < p.children.len()
                invariant
                    i <= p.children@.len(),
                    pairs_view(out@) == cs_param_list(p.children@.take(i as int)),
                decreases p.children@.len() - i,
            {
                let c = &p.children[i];
                assert(p.children@.take(i + 1).drop_last() == p.children@.take(i as int));
                let ghost before = pairs_view(out@);
                if node_kind_is(c, "parameter") {
                    let ty = match trimmed_field(c, "type") {
                        Some(t) => t,
                        None => String::from_str("any"),
                    };
                    if let Some(name) = trimmed_field(c, "name") {
                        if !name.as_str().is_empty() {
                            push_pair(&mut out, name, ty);
                        }
                    }
                }
                assert(pairs_view(out@) =~= before + cs_param(p.children@[i as int]));
                i = i + 1;
            }
            assert(p.children@.take(p.children@.len() as int) == p.children@);
        },
        None => {
            assert(pairs_view(out@) =~= Seq::<(Seq<char>, Seq<char>)>::empty());
        },
    }
    out
}

/// Adds the symbols that node `n` of a C# tree defines itself.
pub fn cs_own_of(n: &SyntaxNode, out: &mut Vec<SymbolInfo>)
    ensures
        symbols_view(final(out)@) == symbols_view(old(out)@) + cs_own(*n),
{
    if node_kind_is(n, "method_declaration") {
        let s = match trimmed_field(n, "name") {
            Some(name) => {
                let used = used_identifiers_of(n, &name);
                Some(make_function(name, cs_params_of(n), trimmed_field(n, "type"), node_lines(n), used))
            },
            None => None,
        };
        push_opt_symbol(out, s);
    } else if node_kind_is(n, "variable_declaration") || node_kind_is(n, "field_declaration") {
        let target: &SyntaxNode = if node_kind_is(n, "field_declaration") {
            match field_of(n, "declaration") {
                Some(d) => d,
                None => n,
            }
        } else {
            n
        };
        assert(*target == cs_target(*n));
        let ty = trimmed_field(target, "type");
        let ghost start = symbols_view(out@);
        let mut i: usize = 0;
        assert(cs_declarator_list(*n, opt_string_view(ty), target.children@.take(0)) =~= Seq::<SymbolView>::empty());
        while i < target.children.len()
            invariant
                i <= target.children@.len(),
                symbols_view(out@) == start + cs_declarator_list(*n, opt_string_view(ty), target.children@.take(i as int)),
            decreases target.children@.len() - i,
        {
            let c = &target.children[i];
            assert(target.children@.take(i + 1).drop_last() == target.children@.take(i as int));
            assert(target.children@.take(i + 1).last() == target.children@[i as int]);
            let ghost before = symbols_view(out@);
            if node_kind_is(c, "variable_declarator") {
                let name_node: Option<&SyntaxNode> = match field_of(c, "name") {
                    Some(x) => Some(x),
                    None => if c.children.len() > 0 { Some(&c.children[0]) } else { None },
                };
                if let Some(x) = name_node {
                    if let Some(name) = node_trimmed_text(x) {
                        let used = used_identifiers_of(c, &name);
                        let tyc = crate::symbols::copy_opt_string(&ty);
                        push_symbol(out, make_variable(name, tyc, node_lines(n), used));
                    }
                }
            }
            assert(symbols_view(out@) =~= before + cs_declarator(*n, opt_string_view(ty), target.children@[i as int]));
            i = i + 1;
        }
        assert(target.children@.take(target.children@.len() as int) == target.children@);
    } else {
        assert(symbols_view(out@) =~= symbols_view(out@) + Seq::<SymbolView>::empty());
    }
}

} // verus!
