//! C and C++: function definitions and declarations, through any number of
//! pointer declarators.
use vstd::prelude::*;
use crate::extract::{
    field_trimmed, function_symbol, make_function, make_variable, opt_seq, push_opt_symbol, push_pair,
    push_symbol, trimmed_field, variable_symbol,
};
use crate::symbols::{opt_string_view, pairs_view, strings_view, symbols_view, SymbolInfo, SymbolView};
use crate::syntax::{
    field_child, field_of, kind_is, lemma_field_child_is_child, lines_of_node, node_kind_is, node_lines,
    node_trimmed_text, trimmed_text, used_identifiers, used_identifiers_of, SyntaxNode,
};

verus! {

/// The function declarator below any pointer declarators: each pointer
/// declarator leads on through its `declarator` field; `None` where one has
/// none.
pub open spec fn function_declarator(d: SyntaxNode) -> Option<SyntaxNode>
    decreases d,
{
    if kind_is(d, "pointer_declarator"@) {
        match field_child(d, "declarator"@) {
            Some(x) => {
                proof {
                    lemma_field_child_is_child(d, "declarator"@);
                    let i = choose|i: int| 0 <= i < d.children@.len() && d.children@[i] == x;
                    assert(decreases_to!(d => d.children@[i]));
                }
                function_declarator(x)
            },
            None => None,
        }
    } else {
        Some(d)
    }
}

/// `true` when the chain of pointer declarators from `d` ends: a pointer
/// declarator without a `declarator` field would be stepped onto forever.
pub open spec fn declarator_chain_ends(d: SyntaxNode) -> bool
    decreases d,
{
    if kind_is(d, "pointer_declarator"@) {
        match field_child(d, "declarator"@) {
            Some(x) => {
                proof {
                    lemma_field_child_is_child(d, "declarator"@);
                    let i = choose|i: int| 0 <= i < d.children@.len() && d.children@[i] == x;
                    assert(decreases_to!(d => d.children@[i]));
                }
                declarator_chain_ends(x)
            },
            None => false,
        }
    } else {
        true
    }
}

pub open spec fn c_param(c: SyntaxNode) -> Seq<(Seq<char>, Seq<char>)> {
    if kind_is(c, "parameter_declaration"@) {
        let ty = match field_trimmed(c, "type"@) {
            Some(t) => t,
            None => "any"@,
        };
        match field_trimmed(c, "declarator"@) {
            Some(name) => if name.len() > 0 { seq![(name, ty)] } else { seq![] },
            None => seq![],
        }
    } else {
        seq![]
    }
}

pub open spec fn c_param_list(cs: Seq<SyntaxNode>) -> Seq<(Seq<char>, Seq<char>)>
    decreases cs.len(),
{
    if cs.len() == 0 {
        seq![]
    } else {
        c_param_list(cs.drop_last()) + c_param(cs.last())
    }
}

pub open spec fn c_function(n: SyntaxNode) -> Option<SymbolView> {
    match field_child(n, "declarator"@) {
        Some(d) => match function_declarator(d) {
            Some(fd) => match field_trimmed(fd, "declarator"@) {
                Some(name) => Some(function_symbol(
                    name,
                    match field_child(fd, "parameters"@) {
                        Some(p) => c_param_list(p.children@),
                        None => seq![],
                    },
                    field_trimmed(n, "type"@),
                    lines_of_node(n),
                    used_identifiers(n, name),
                )),
                None => None,
            },
            None => None,
        },
        None => None,
    }
}

/// A child of a declaration: an `init_declarator`, or a bare identifier.
pub open spec fn c_declared(n: SyntaxNode, ty: Option<Seq<char>>, c: SyntaxNode) -> Seq<SymbolView> {
    if kind_is(c, "init_declarator"@) {
        match field_child(c, "declarator"@) {
            Some(d) => match function_declarator(d) {
                Some(target) => match trimmed_text(target) {
                    Some(name) => seq![variable_symbol(name, ty, lines_of_node(n), used_identifiers(c, name))],
                    None => seq![],
                },
                None => seq![],
            },
            None => seq![],
        }
    } else if kind_is(c, "identifier"@) {
        match trimmed_text(c) {
            Some(name) => seq![variable_symbol(name, ty, lines_of_node(n), seq![])],
            None => seq![],
        }
    } else {
        seq![]
    }
}

pub open spec fn c_declared_list(n: SyntaxNode, ty: Option<Seq<char>>, cs: Seq<SyntaxNode>) -> Seq<SymbolView>
    decreases cs.len(),
{
    if cs.len() == 0 {
        seq![]
    } else {
        c_declared_list(n, ty, cs.drop_last()) + c_declared(n, ty, cs.last())
    }
}

/// The symbols that a node of a C or C++ tree defines itself.
pub open spec fn c_own(n: SyntaxNode) -> Seq<SymbolView> {
    if kind_is(n, "function_definition"@) {
        opt_seq(c_function(n))
    } else if kind_is(n, "declaration"@) {
        match field_child(n, "type"@) {
            Some(t) => c_declared_list(n, trimmed_text(t), n.children@),
            None => seq![],
        }
    } else {
        seq![]
    }
}

/// `true` when every `init_declarator` child of `cs` with a `declarator`
/// field leads to the end of its chain of pointer declarators.
pub open spec fn init_chains_end(cs: Seq<SyntaxNode>) -> bool {
    forall|k: int| 0 <= k < cs.len() && #[trigger] kind_is(cs[k], "init_declarator"@) ==>
        match field_child(cs[k], "declarator"@) {
            Some(d) => declarator_chain_ends(d),
            None => true,
        }
}

/// Reading node `n` ends: a declaration with a type whose declarators all
/// lead somewhere, or any other node.
pub open spec fn c_node_halts(n: SyntaxNode) -> bool {
    kind_is(n, "declaration"@) && field_child(n, "type"@) is Some ==> init_chains_end(n.children@)
}

fn function_declarator_of<'a>(d: &'a SyntaxNode) -> (r: Option<&'a SyntaxNode>)
    ensures
        match r {
            Some(x) => function_declarator(*d) == Some(*x) && declarator_chain_ends(*d),
            None => function_declarator(*d) is None && !declarator_chain_ends(*d),
        },
    decreases d,
{
    if node_kind_is(d, "pointer_declarator") {
        match field_of(d, "declarator") {
            Some(x) => {
                proof {
                    lemma_field_child_is_child(*d, "declarator"@);
                }
                function_declarator_of(x)
            },
            None => None,
        }
    } else {
        Some(d)
    }
}

fn c_params_of(fd: &SyntaxNode) -> (r: Vec<(String, String)>)
    ensures
        pairs_view(r@) == match field_child(*fd, "parameters"@) {
            Some(p) => c_param_list(p.children@),
            None => seq![],
        },
{
    let mut out: Vec<(String, String)> = Vec::new();
    match field_of(fd, "parameters") {
        Some(p) => {
            let mut i: usize = 0;
            while i < p.children.len()
                invariant
                    i <= p.children@.len(),
                    pairs_view(out@) == c_param_list(p.children@.take(i as int)),
                decreases p.children@.len() - i,
            {
                let c = &p.children[i];
                assert(p.children@.take(i + 1).drop_last() == p.children@.take(i as int));
                let ghost before = pairs_view(out@);
                if node_kind_is(c, "parameter_declaration") {
                    let ty = match trimmed_field(c, "type") {
                        Some(t) => t,
                        None => String::from_str("any"),
                    };
                    if let Some(name) = trimmed_field(c, "declarator") {
                        if !name.as_str().is_empty() {
                            push_pair(&mut out, name, ty);
                        }
                    }
                }
                assert(pairs_view(out@) =~= before + c_param(p.children@[i as int]));
                i = i + 1;
            }
            assert(p.children@.take(p.children@.len() as int) == p.children@);
        },
        None => {
            assert(pairs_view(out@) =~= Seq::<(Seq<char>, Seq<char>)>::empty());
        },
    }
    out
}

fn c_function_of(n: &SyntaxNode) -> (r: Option<SymbolInfo>)
    ensures
        match r {
            Some(s) => c_function(*n) == Some(s@),
            None => c_function(*n) is None,
        },
{
    let d = field_of(n, "declarator")?;
    let fd = function_declarator_of(d)?;
    let name = trimmed_field(fd, "declarator")?;
    let used = used_identifiers_of(n, &name);
    Some(make_function(name, c_params_of(fd), trimmed_field(n, "type"), node_lines(n), used))
}

/// `true` when reading node `n` ends.
pub fn c_node_halts_check(n: &SyntaxNode) -> (b: bool)
    ensures
        b == c_node_halts(*n),
{
    if !(node_kind_is(n, "declaration")) {
        return true;
    }
    match field_of(n, "type") {
        None => return true,
        Some(_) => {},
    }
    let mut i: usize = 0;
    while i < n.children.len()
        invariant
            i <= n.children@.len(),
            kind_is(*n, "declaration"@),
            field_child(*n, "type"@) is Some,
            forall|k: int| 0 <= k < i && #[trigger] kind_is(n.children@[k], "init_declarator"@) ==>
                match field_child(n.children@[k], "declarator"@) {
                    Some(d) => declarator_chain_ends(d),
                    None => true,
                },
        decreases n.children@.len() - i,
    {
        let c = &n.children[i];
        if node_kind_is(c, "init_declarator") {
            if let Some(d) = field_of(c, "declarator") {
                match function_declarator_of(d) {
                    Some(_) => {},
                    None => {
                        assert(kind_is(n.children@[i as int], "init_declarator"@));
                        assert(n.children@[i as int] == *c);
                        assert(field_child(n.children@[i as int], "declarator"@) == Some(*d));
                        assert(!init_chains_end(n.children@));
                        return false;
                    },
                }
            }
        }
        i = i + 1;
    }
    true
}

/// Adds the symbols that node `n` of a C or C++ tree defines itself.
pub fn c_own_of(n: &SyntaxNode, out: &mut Vec<SymbolInfo>)
    requires
        c_node_halts(*n),
    ensures
        symbols_view(final(out)@) == symbols_view(old(out)@) + c_own(*n),
{
    if node_kind_is(n, "function_definition") {
        push_opt_symbol(out, c_function_of(n));
    } else if node_kind_is(n, "declaration") {
        match field_of(n, "type") {
            Some(t) => {
                let ty = node_trimmed_text(t);
                let ghost start = symbols_view(out@);
                let mut i: usize = 0;
                assert(c_declared_list(*n, opt_string_view(ty), n.children@.take(0)) =~= Seq::<SymbolView>::empty());
                while i < n.children.len()
                    invariant
                        i <= n.children@.len(),
                        init_chains_end(n.children@),
                        symbols_view(out@) == start + c_declared_list(*n, opt_string_view(ty), n.children@.take(i as int)),
                    decreases n.children@.len() - i,
                {
                    let c = &n.children[i];
                    assert(n.children@.take(i + 1).drop_last() == n.children@.take(i as int));
                    assert(n.children@.take(i + 1).last() == n.children@[i as int]);
                    let ghost before = symbols_view(out@);
                    if node_kind_is(c, "init_declarator") {
                        if let Some(d) = field_of(c, "declarator") {
                            if let Some(target) = function_declarator_of(d) {
                                if let Some(name) = node_trimmed_text(target) {
                                    let used = used_identifiers_of(c, &name);
                                    let tyc = crate::symbols::copy_opt_string(&ty);
                                    push_symbol(out, make_variable(name, tyc, node_lines(n), used));
                                }
                            }
                        }
                    } else if node_kind_is(c, "identifier") {
                        if let Some(name) = node_trimmed_text(c) {
                            let tyc = crate::symbols::copy_opt_string(&ty);
                            let empty: Vec<String> = Vec::new();
                            assert(strings_view(empty@) =~= Seq::<Seq<char>>::empty());
                            push_symbol(out, make_variable(name, tyc, node_lines(n), empty));
                        }
                    }
                    assert(symbols_view(out@) =~= before + c_declared(*n, opt_string_view(ty), n.children@[i as int]));
                    i = i + 1;
                }
                assert(n.children@.take(n.children@.len() as int) == n.children@);
            },
            None => {
                assert(symbols_view(out@) =~= symbols_view(out@) + Seq::<SymbolView>::empty());
            },
        }
    } else {
        assert(symbols_view(out@) =~= symbols_view(out@) + Seq::<SymbolView>::empty());
    }
}

} // verus!
