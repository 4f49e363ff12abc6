//! Go: function and method declarations, `var` and `const` specs, and short
//! variable declarations.
use vstd::prelude::*;
use crate::extract::{
    field_trimmed, function_symbol, make_function, make_variable, name_of, name_text, opt_seq, push_opt_symbol,
    push_pair, push_symbol, trimmed_field, variable_symbol,
};
use crate::symbols::{opt_string_view, pairs_view, strings_view, symbols_view, SymbolInfo, SymbolView};
use crate::syntax::{
    field_child, field_of, kind_is, lines_of_node, node_kind_is, node_lines, node_trimmed_text, trimmed_text,
    used_identifiers, used_identifiers_of, SyntaxNode,
};

verus! {

/// The trimmed texts of the identifiers among `cs`, in order.
pub open spec fn identifier_names(cs: Seq<SyntaxNode>) -> Seq<Seq<char>>
    decreases cs.len(),
{
    if cs.len() == 0 {
        seq![]
    } else {
        let prev = identifier_names(cs.drop_last());
        if kind_is(cs.last(), "identifier"@) && cs.last().text is Some {
            prev.push(crate::text::trim(cs.last().text->0@))
        } else {
            prev
        }
    }
}

/// The trimmed text of the last child that is no identifier; `any` where
/// there is none.
pub open spec fn last_type(cs: Seq<SyntaxNode>) -> Seq<char>
    decreases cs.len(),
{
    if cs.len() == 0 {
        "any"@
    } else if !kind_is(cs.last(), "identifier"@) && cs.last().text is Some {
        crate::text::trim(cs.last().text->0@)
    } else {
        last_type(cs.drop_last())
    }
}

/// A `parameter_declaration`: each of its names with the declared type.
pub open spec fn go_param(c: SyntaxNode) -> Seq<(Seq<char>, Seq<char>)> {
    if kind_is(c, "parameter_declaration"@) {
        identifier_names(c.children@).map_values(|nm: Seq<char>| (nm, last_type(c.children@)))
    } else {
        seq![]
    }
}

pub open spec fn go_param_list(cs: Seq<SyntaxNode>) -> Seq<(Seq<char>, Seq<char>)>
    decreases cs.len(),
{
    if cs.len() == 0 {
        seq![]
    } else {
        go_param_list(cs.drop_last()) + go_param(cs.last())
    }
}

pub open spec fn go_params(n: SyntaxNode) -> Seq<(Seq<char>, Seq<char>)> {
    match field_child(n, "parameters"@) {
        Some(p) => go_param_list(p.children@),
        None => seq![],
    }
}

pub open spec fn go_function(n: SyntaxNode) -> Option<SymbolView> {
    match name_text(n) {
        Some(name) => Some(function_symbol(name, go_params(n), field_trimmed(n, "result"@), lines_of_node(n), used_identifiers(n, name))),
        None => None,
    }
}

/// The type that the children of a `var_spec` or `const_spec` give it,
/// after the first `cs.len()` of them: each child that is no identifier,
/// literal or expression sets it to the spec's `type` field where the spec
/// has one, else to its own text where its kind mentions a type.
pub open spec fn go_spec_type(n: SyntaxNode, cs: Seq<SyntaxNode>) -> Option<Seq<char>>
    decreases cs.len(),
{
    if cs.len() == 0 {
        None
    } else {
        let prev = go_spec_type(n, cs.drop_last());
        let c = cs.last();
        if !kind_is(c, "identifier"@) && !kind_is(c, "literal"@) && !kind_is(c, "expression"@) {
            match field_child(n, "type"@) {
                Some(t) => match trimmed_text(t) {
                    Some(x) => Some(x),
                    None => prev,
                },
                None => if crate::syntax::kind_mentions_type(c) {
                    match trimmed_text(c) {
                        Some(x) => Some(x),
                        None => prev,
                    }
                } else {
                    prev
                },
            }
        } else {
            prev
        }
    }
}

/// One variable per name, all with the same type and lines.
pub open spec fn go_vars(n: SyntaxNode, names: Seq<Seq<char>>, ty: Option<Seq<char>>) -> Seq<SymbolView> {
    names.map_values(|nm: Seq<char>| variable_symbol(nm, ty, lines_of_node(n), used_identifiers(n, nm)))
}

/// The names on the left of a short variable declaration.
pub open spec fn go_short_names(left: SyntaxNode) -> Seq<Seq<char>> {
    if kind_is(left, "expression_list"@) {
        identifier_names(left.children@)
    } else if kind_is(left, "identifier"@) {
        match trimmed_text(left) {
            Some(t) => seq![t],
            None => seq![],
        }
    } else {
        seq![]
    }
}

/// The symbols that a node of a Go tree defines itself.
pub open spec fn go_own(n: SyntaxNode) -> Seq<SymbolView> {
    if kind_is(n, "function_declaration"@) || kind_is(n, "method_declaration"@) {
        opt_seq(go_function(n))
    } else if kind_is(n, "var_spec"@) || kind_is(n, "const_spec"@) {
        go_vars(n, identifier_names(n.children@), go_spec_type(n, n.children@))
    } else if kind_is(n, "short_var_declaration"@) {
        match field_child(n, "left"@) {
            Some(left) => go_vars(n, go_short_names(left), None),
            None => seq![],
        }
    } else {
        seq![]
    }
}

fn identifier_names_of(n: &SyntaxNode) -> (r: Vec<String>)
    ensures
        strings_view(r@) == identifier_names(n.children@),
{
    let mut r: Vec<String> = Vec::new();
    let mut i: usize = 0;
    assert(strings_view(r@) =~= identifier_names(n.children@.take(0)));
    while i < n.children.len()
        invariant
            i <= n.children@.len(),
            strings_view(r@) == identifier_names(n.children@.take(i as int)),
        decreases n.children@.len() - i,
    {
        let c = &n.children[i];
        assert(n.children@.take(i + 1).drop_last() == n.children@.take(i as int));
        assert(n.children@.take(i + 1).last() == n.children@[i as int]);
        if node_kind_is(c, "identifier") {
            if let Some(t) = &c.text {
                let ghost before = strings_view(r@);
                r.push(crate::text::trim_string(t.as_str()));
                assert(strings_view(r@) =~= before.push(crate::text::trim(t@)));
            }
        }
        i = i + 1;
    }
    assert(n.children@.take(n.children@.len() as int) == n.children@);
    r
}

fn last_type_of(n: &SyntaxNode) -> (r: String)
    ensures
        r@ == last_type(n.children@),
{
    let mut r = String::from_str("any");
    let mut i: usize = 0;
    while i < n.children.len()
        invariant
            i <= n.children@.len(),
            r@ == last_type(n.children@.take(i as int)),
        decreases n.children@.len() - i,
    {
        let c = &n.children[i];
        assert(n.children@.take(i + 1).drop_last() == n.children@.take(i as int));
        assert(n.children@.take(i + 1).last() == n.children@[i as int]);
        if !node_kind_is(c, "identifier") {
            if let Some(t) = &c.text {
                r = crate::text::trim_string(t.as_str());
            }
        }
        i = i + 1;
    }
    assert(n.children@.take(n.children@.len() as int) == n.children@);
    r
}

fn go_params_of(n: &SyntaxNode) -> (r: Vec<(String, String)>)
    ensures
        pairs_view(r@) == go_params(*n),
{
    let mut out: Vec<(String, String)> = Vec::new();
    match field_of(n, "parameters") {
        Some(p) => {
            let mut i: usize = 0;
            while i < p.children.len()
                invariant
                    i <= p.children@.len(),
                    pairs_view(out@) == go_param_list(p.children@.take(i as int)),
                decreases p.children@.len() - i,
            {
                let c = &p.children[i];
                assert(p.children@.take(i + 1).drop_last() == p.children@.take(i as int));
                let ghost before = pairs_view(out@);
                if node_kind_is(c, "parameter_declaration") {
                    let names = identifier_names_of(c);
                    let ty = last_type_of(c);
                    let ghost nv = strings_view(names@);
                    let mut k: usize = 0;
                    while k < names.len()
                        invariant
                            k <= names@.len(),
                            nv == strings_view(names@),
                            pairs_view(out@) == before + nv.take(k as int).map_values(|nm: Seq<char>| (nm, ty@)),
                        decreases names@.len() - k,
                    {
                        let ghost mid = pairs_view(out@);
                        push_pair(&mut out, names[k].clone(), ty.clone());
                        assert(nv.take(k + 1).map_values(|nm: Seq<char>| (nm, ty@))
                            =~= nv.take(k as int).map_values(|nm: Seq<char>| (nm, ty@)).push((nv[k as int], ty@)));
                        k = k + 1;
                    }
                    assert(nv.take(names@.len() as int) == nv);
                }
                assert(pairs_view(out@) =~= before + go_param(p.children@[i as int]));
                i = i + 1;
            }
            assert(p.children@.take(p.children@.len() as int) == p.children@);
        },
        None => {
            assert(pairs_view(out@) =~= Seq::<(Seq<char>, Seq<char>)>::empty());
        },
    }
    out
}

fn go_spec_type_of(n: &SyntaxNode) -> (r: Option<String>)
    ensures
        opt_string_view(r) == go_spec_type(*n, n.children@),
{
    let mut r: Option<String> = None;
    let spec_type = trimmed_field(n, "type");
    let has_type_field = match field_of(n, "type") {
        Some(_) => true,
        None => false,
    };
    let mut i: usize = 0;
    while i < n.children.len()
        invariant
            i <= n.children@.len(),
            has_type_field == field_child(*n, "type"@) is Some,
            opt_string_view(spec_type) == crate::extract::field_trimmed(*n, "type"@),
            opt_string_view(r) == go_spec_type(*n, n.children@.take(i as int)),
        decreases n.children@.len() - i,
    {
        let c = &n.children[i];
        assert(n.children@.take(i + 1).drop_last() == n.children@.take(i as int));
        assert(n.children@.take(i + 1).last() == n.children@[i as int]);
        if !node_kind_is(c, "identifier") && !node_kind_is(c, "literal") && !node_kind_is(c, "expression") {
            if has_type_field {
                if let Some(t) = &spec_type {
                    r = Some(t.clone());
                }
            } else if crate::syntax::node_kind_mentions_type(c) {
                if let Some(t) = node_trimmed_text(c) {
                    r = Some(t);
                }
            }
        }
        i = i + 1;
    }
    assert(n.children@.take(n.children@.len() as int) == n.children@);
    r
}

fn push_go_vars(n: &SyntaxNode, names: &Vec<String>, ty: &Option<String>, out: &mut Vec<SymbolInfo>)
    ensures
        symbols_view(final(out)@) == symbols_view(old(out)@) + go_vars(*n, strings_view(names@), opt_string_view(*ty)),
{
    let ghost start = symbols_view(out@);
    let ghost nv = strings_view(names@);
    let mut k: usize = 0;
    while k < names.len()
        invariant
            k <= names@.len(),
            nv == strings_view(names@),
            symbols_view(out@) == start + go_vars(*n, nv.take(k as int), opt_string_view(*ty)),
        decreases names@.len() - k,
    {
        let name = names[k].clone();
        let used = used_identifiers_of(n, &name);
        let t = crate::symbols::copy_opt_string(ty);
        let ghost mid = symbols_view(out@);
        push_symbol(out, make_variable(name, t, node_lines(n), used));
        assert(go_vars(*n, nv.take(k + 1), opt_string_view(*ty))
            =~= go_vars(*n, nv.take(k as int), opt_string_view(*ty)).push(
                variable_symbol(nv[k as int], opt_string_view(*ty), lines_of_node(*n), used_identifiers(*n, nv[k as int]))));
        k = k + 1;
    }
    assert(nv.take(names@.len() as int) == nv);
}

/// Adds the symbols that node `n` of a Go tree defines itself.
pub fn go_own_of(n: &SyntaxNode, out: &mut Vec<SymbolInfo>)
    ensures
        symbols_view(final(out)@) == symbols_view(old(out)@) + go_own(*n),
{
    if node_kind_is(n, "function_declaration") || node_kind_is(n, "method_declaration") {
        let s = match name_of(n) {
            Some(name) => {
                let used = used_identifiers_of(n, &name);
                Some(make_function(name, go_params_of(n), trimmed_field(n, "result"), node_lines(n), used))
            },
            None => None,
        };
        push_opt_symbol(out, s);
    } else if node_kind_is(n, "var_spec") || node_kind_is(n, "const_spec") {
        let names = identifier_names_of(n);
        let ty = go_spec_type_of(n);
        push_go_vars(n, &names, &ty, out);
    } else if node_kind_is(n, "short_var_declaration") {
        match field_of(n, "left") {
            Some(left) => {
                let names: Vec<String> = if node_kind_is(left, "expression_list") {
                    identifier_names_of(left)
                } else if node_kind_is(left, "identifier") {
                    match node_trimmed_text(left) {
                        Some(t) => {
                            let v = vec![t];
                            assert(strings_view(v@) =~= go_short_names(*left));
                            v
                        },
                        None => {
                            let v: Vec<String> = Vec::new();
                            assert(strings_view(v@) =~= go_short_names(*left));
                            v
                        },
                    }
                } else {
                    let v: Vec<String> = Vec::new();
                    assert(strings_view(v@) =~= go_short_names(*left));
                    v
                };
                push_go_vars(n, &names, &None, out);
            },
            None => {
                assert(symbols_view(out@) =~= symbols_view(out@) + Seq::<SymbolView>::empty());
            },
        }
    } else {
        assert(symbols_view(out@) =~= symbols_view(out@) + Seq::<SymbolView>::empty());
    }
}

} // verus!
