//! Kotlin: function declarations and property declarations.
use vstd::prelude::*;
use crate::extract::{function_symbol, make_function, make_variable, opt_seq, push_opt_symbol, variable_symbol};
use crate::symbols::{opt_string_view, pairs_view, symbols_view, SymbolInfo, SymbolView};
use crate::syntax::{
    kind_is, kind_mentions_type, lines_of_node, node_kind_is, node_kind_mentions_type, node_lines,
    node_trimmed_text, node_trimmed_text_or, text_or, trimmed_text, used_identifiers, used_identifiers_of,
    SyntaxNode,
};
use crate::text::trim;

verus! {

/// One child of a parameter read into (name, type): each identifier names
/// it, each child whose kind mentions a type types it.
pub open spec fn kt_param_step(acc: (Seq<char>, Seq<char>), c: SyntaxNode) -> (Seq<char>, Seq<char>) {
    if kind_is(c, "simple_identifier"@) {
        (trim(text_or(c, ""@)), acc.1)
    } else if kind_mentions_type(c) {
        (acc.0, trim(text_or(c, "any"@)))
    } else {
        acc
    }
}

pub open spec fn kt_param_fold(cs: Seq<SyntaxNode>) -> (Seq<char>, Seq<char>)
    decreases cs.len(),
{
    if cs.len() == 0 {
        (""@, "any"@)
    } else {
        kt_param_step(kt_param_fold(cs.drop_last()), cs.last())
    }
}

/// A child `parameter` that has a name, with its type (`any` where none).
pub open spec fn kt_param(c: SyntaxNode) -> Seq<(Seq<char>, Seq<char>)> {
    if kind_is(c, "parameter"@) {
        let (name, ty) = kt_param_fold(c.children@);
        if name.len() > 0 {
            seq![(name, ty)]
        } else {
            seq![]
        }
    } else {
        seq![]
    }
}

pub open spec fn kt_param_list(cs: Seq<SyntaxNode>) -> Seq<(Seq<char>, Seq<char>)>
    decreases cs.len(),
{
    if cs.len() == 0 {
        seq![]
    } else {
        kt_param_list(cs.drop_last()) + kt_param(cs.last())
    }
}

/// What the children of a function declaration have given so far: its
/// name, its last parameter list, and its return type.
pub struct KotlinHeader {
    pub name: Seq<char>,
    pub params: Option<SyntaxNode>,
    pub ret: Option<Seq<char>>,
}

/// One child of a function declaration: the first identifier names it, a
/// `function_value_parameters` node holds its parameters, and a type after
/// it is the return type. A name or return type without text ends the
/// reading.
pub open spec fn kt_header_step(h: Option<KotlinHeader>, c: SyntaxNode) -> Option<KotlinHeader> {
    match h {
        None => None,
        Some(st) => if kind_is(c, "simple_identifier"@) && st.name.len() == 0 {
            match trimmed_text(c) {
                Some(t) => Some(KotlinHeader { name: t, params: st.params, ret: st.ret }),
                None => None,
            }
        } else if kind_is(c, "function_value_parameters"@) {
            Some(KotlinHeader { name: st.name, params: Some(c), ret: st.ret })
        } else if kind_mentions_type(c) && st.params is Some {
            match trimmed_text(c) {
                Some(t) => Some(KotlinHeader { name: st.name, params: st.params, ret: Some(t) }),
                None => None,
            }
        } else {
            Some(st)
        },
    }
}

pub open spec fn kt_header(cs: Seq<SyntaxNode>) -> Option<KotlinHeader>
    decreases cs.len(),
{
    if cs.len() == 0 {
        Some(KotlinHeader { name: seq![], params: None, ret: None })
    } else {
        kt_header_step(kt_header(cs.drop_last()), cs.last())
    }
}

pub open spec fn kt_function(n: SyntaxNode) -> Option<SymbolView> {
    match kt_header(n.children@) {
        Some(h) => if h.name.len() > 0 {
            Some(
                function_symbol(
                    h.name,
                    match h.params {
                        Some(p) => kt_param_list(p.children@),
                        None => seq![],
                    },
                    h.ret,
                    lines_of_node(n),
                    used_identifiers(n, h.name),
                ),
            )
        } else {
            None
        },
        None => None,
    }
}

/// One child of a `variable_declaration` read into (name, type).
pub open spec fn kt_decl_step(acc: (Option<Seq<char>>, Option<Seq<char>>), c: SyntaxNode) -> (
    Option<Seq<char>>,
    Option<Seq<char>>,
) {
    if kind_is(c, "simple_identifier"@) {
        (Some(trim(text_or(c, ""@))), acc.1)
    } else if kind_mentions_type(c) {
        (acc.0, Some(trim(text_or(c, ""@))))
    } else {
        acc
    }
}

pub open spec fn kt_decl_fold(acc: (Option<Seq<char>>, Option<Seq<char>>), cs: Seq<SyntaxNode>) -> (
    Option<Seq<char>>,
    Option<Seq<char>>,
)
    decreases cs.len(),
{
    if cs.len() == 0 {
        acc
    } else {
        kt_decl_step(kt_decl_fold(acc, cs.drop_last()), cs.last())
    }
}

/// One child of a property declaration: a `variable_declaration` gives the
/// name and type that its own children give.
pub open spec fn kt_property_step(acc: (Option<Seq<char>>, Option<Seq<char>>), c: SyntaxNode) -> (
    Option<Seq<char>>,
    Option<Seq<char>>,
) {
    if kind_is(c, "variable_declaration"@) {
        kt_decl_fold(acc, c.children@)
    } else {
        acc
    }
}

pub open spec fn kt_property(cs: Seq<SyntaxNode>) -> (Option<Seq<char>>, Option<Seq<char>>)
    decreases cs.len(),
{
    if cs.len() == 0 {
        (None, None)
    } else {
        kt_property_step(kt_property(cs.drop_last()), cs.last())
    }
}

pub open spec fn kt_variable(n: SyntaxNode) -> Option<SymbolView> {
    let (name, ty) = kt_property(n.children@);
    match name {
        Some(x) => Some(variable_symbol(x, ty, lines_of_node(n), used_identifiers(n, x))),
        None => None,
    }
}

/// The symbols that a node of a Kotlin tree defines itself.
pub open spec fn kt_own(n: SyntaxNode) -> Seq<SymbolView> {
    if kind_is(n, "function_declaration"@) {
        opt_seq(kt_function(n))
    } else if kind_is(n, "property_declaration"@) {
        opt_seq(kt_variable(n))
    } else {
        seq![]
    }
}

fn kt_params_of(p: &SyntaxNode) -> (r: Vec<(String, String)>)
    ensures
        pairs_view(r@) == kt_param_list(p.children@),
{
    let mut out: Vec<(String, String)> = Vec::new();
    let mut i: usize = 0;
    while i < p.children.len()
        invariant
            i <= p.children@.len(),
            pairs_view(out@) == kt_param_list(p.children@.take(i as int)),
        decreases p.children@.len() - i,
    {
        let c = &p.children[i];
        assert(p.children@.take(i + 1).drop_last() == p.children@.take(i as int));
        let ghost before = pairs_view(out@);
        if node_kind_is(c, "parameter") {
            proof {
                reveal_strlit("");
                reveal_strlit("any");
            }
            let mut name = String::new();
            let mut ty = String::from_str("any");
            let mut k: usize = 0;
            while k < c.children.len()
                invariant
                    k <= c.children@.len(),
                    (name@, ty@) == kt_param_fold(c.children@.take(k as int)),
                decreases c.children@.len() - k,
            {
                let s = &c.children[k];
                assert(c.children@.take(k + 1).drop_last() == c.children@.take(k as int));
                if node_kind_is(s, "simple_identifier") {
                    name = node_trimmed_text_or(s, "");
                } else if node_kind_mentions_type(s) {
                    ty = node_trimmed_text_or(s, "any");
                }
                k = k + 1;
            }
            assert(c.children@.take(c.children@.len() as int) == c.children@);
            if !name.as_str().is_empty() {
                out.push((name, ty));
            }
        }
        assert(pairs_view(out@) =~= before + kt_param(p.children@[i as int]));
        i = i + 1;
    }
    assert(p.children@.take(p.children@.len() as int) == p.children@);
    out
}

/// Reads the header of a function declaration: its name, parameters and
/// return type, or `None` where the reading ends early.
fn kt_header_of(n: &SyntaxNode) -> (r: Option<(String, Vec<(String, String)>, Option<String>)>)
    ensures
        match kt_header(n.children@) {
            Some(h) => r matches Some(x) && x.0@ == h.name && pairs_view(x.1@) == match h.params {
                Some(p) => kt_param_list(p.children@),
                None => Seq::<(Seq<char>, Seq<char>)>::empty(),
            } && opt_string_view(x.2) == h.ret,
            None => r is None,
        },
{
    let mut name = String::new();
    let mut params: Option<&SyntaxNode> = None;
    let mut ret: Option<String> = None;
    let mut ok = true;
    let mut i: usize = 0;
    proof { reveal_strlit(""); }
    while i < n.children.len()
        invariant
            i <= n.children@.len(),
            ok ==> kt_header(n.children@.take(i as int)) == Some(
                KotlinHeader {
                    name: name@,
                    params: match params {
                        Some(p) => Some(*p),
                        None => None,
                    },
                    ret: opt_string_view(ret),
                },
            ),
            !ok ==> kt_header(n.children@.take(i as int)) is None,
        decreases n.children@.len() - i,
    {
        let c = &n.children[i];
        assert(n.children@.take(i + 1).drop_last() == n.children@.take(i as int));
        if ok {
            if node_kind_is(c, "simple_identifier") && name.as_str().is_empty() {
                match node_trimmed_text(c) {
                    Some(t) => {
                        name = t;
                    },
                    None => {
                        ok = false;
                    },
                }
            } else if node_kind_is(c, "function_value_parameters") {
                params = Some(c);
            } else if node_kind_mentions_type(c) && params.is_some() {
                match node_trimmed_text(c) {
                    Some(t) => {
                        ret = Some(t);
                    },
                    None => {
                        ok = false;
                    },
                }
            }
        }
        i = i + 1;
    }
    assert(n.children@.take(n.children@.len() as int) == n.children@);
    if ok {
        let list = match params {
            Some(p) => kt_params_of(p),
            None => {
                let v: Vec<(String, String)> = Vec::new();
                assert(pairs_view(v@) =~= Seq::<(Seq<char>, Seq<char>)>::empty());
                v
            },
        };
        Some((name, list, ret))
    } else {
        None
    }
}

fn kt_property_of(n: &SyntaxNode) -> (r: (Option<String>, Option<String>))
    ensures
        (opt_string_view(r.0), opt_string_view(r.1)) == kt_property(n.children@),
{
    proof { reveal_strlit(""); }
    let mut name: Option<String> = None;
    let mut ty: Option<String> = None;
    let mut i: usize = 0;
    while i < n.children.len()
        invariant
            i <= n.children@.len(),
            (opt_string_view(name), opt_string_view(ty)) == kt_property(n.children@.take(i as int)),
        decreases n.children@.len() - i,
    {
        let c = &n.children[i];
        assert(n.children@.take(i + 1).drop_last() == n.children@.take(i as int));
        if node_kind_is(c, "variable_declaration") {
            let ghost start = (opt_string_view(name), opt_string_view(ty));
            let mut k: usize = 0;
            while k < c.children.len()
                invariant
                    k <= c.children@.len(),
                    (opt_string_view(name), opt_string_view(ty)) == kt_decl_fold(start, c.children@.take(k as int)),
                decreases c.children@.len() - k,
            {
                let s = &c.children[k];
                assert(c.children@.take(k + 1).drop_last() == c.children@.take(k as int));
                if node_kind_is(s, "simple_identifier") {
                    name = Some(node_trimmed_text_or(s, ""));
                } else if node_kind_mentions_type(s) {
                    ty = Some(node_trimmed_text_or(s, ""));
                }
                k = k + 1;
            }
            assert(c.children@.take(c.children@.len() as int) == c.children@);
        }
        i = i + 1;
    }
    assert(n.children@.take(n.children@.len() as int) == n.children@);
    (name, ty)
}

/// Adds the symbols that node `n` of a Kotlin tree defines itself.
pub fn kt_own_of(n: &SyntaxNode, out: &mut Vec<SymbolInfo>)
    ensures
        symbols_view(final(out)@) == symbols_view(old(out)@) + kt_own(*n),
{
    if node_kind_is(n, "function_declaration") {
        let s = match kt_header_of(n) {
            Some((name, params, ret)) => if name.as_str().is_empty() {
                None
            } else {
                let used = used_identifiers_of(n, &name);
                Some(make_function(name, params, ret, node_lines(n), used))
            },
            None => None,
        };
        push_opt_symbol(out, s);
    } else if node_kind_is(n, "property_declaration") {
        let (name, ty) = kt_property_of(n);
        let s = match name {
            Some(x) => {
                let used = used_identifiers_of(n, &x);
                Some(make_variable(x, ty, node_lines(n), used))
            },
            None => None,
        };
        push_opt_symbol(out, s);
    } else {
        assert(symbols_view(out@) =~= symbols_view(out@) + Seq::<SymbolView>::empty());
    }
}

} // verus!
