//! Swift: function declarations, and variable, constant and property
//! declarations.
use vstd::prelude::*;
use crate::extract::{function_symbol, make_function, make_variable, opt_seq, push_opt_symbol, variable_symbol};
use crate::symbols::{opt_string_view, pairs_view, symbols_view, SymbolInfo, SymbolView};
use crate::syntax::{
    kind_is, kind_mentions_type, lines_of_node, node_kind_is, node_kind_mentions_type, node_lines,
    node_trimmed_text, node_trimmed_text_or, text_or, trimmed_text, used_identifiers, used_identifiers_of,
    SyntaxNode,
};
use crate::text::trim;

verus! {

/// One child of a parameter read into (name, type): the first child under
/// field `name` names it, each child whose kind mentions a type types it.
pub open spec fn swift_param_step(acc: (Seq<char>, Seq<char>), c: SyntaxNode) -> (Seq<char>, Seq<char>) {
    if c.field is Some && c.field->0@ == "name"@ && acc.0.len() == 0 {
        (trim(text_or(c, ""@)), acc.1)
    } else if kind_mentions_type(c) {
        (acc.0, trim(text_or(c, "any"@)))
    } else {
        acc
    }
}

pub open spec fn swift_param_fold(cs: Seq<SyntaxNode>) -> (Seq<char>, Seq<char>)
    decreases cs.len(),
{
    if cs.len() == 0 {
        (""@, "any"@)
    } else {
        swift_param_step(swift_param_fold(cs.drop_last()), cs.last())
    }
}

/// A parameter that has a name, with its type (`any` where it gives none).
pub open spec fn swift_param(c: SyntaxNode) -> Seq<(Seq<char>, Seq<char>)> {
    let (name, ty) = swift_param_fold(c.children@);
    if name.len() > 0 {
        seq![(name, ty)]
    } else {
        seq![]
    }
}

/// What the children of a function declaration have given so far.
pub struct SwiftHeader {
    pub name: Seq<char>,
    pub has_params: bool,
    pub params: Seq<(Seq<char>, Seq<char>)>,
    pub ret: Option<Seq<char>>,
}

/// One child of a function declaration: the first identifier names it, a
/// parameter adds to its parameters, and a type after a parameter is its
/// return type. A name or return type without text ends the reading.
pub open spec fn swift_header_step(h: Option<SwiftHeader>, c: SyntaxNode) -> Option<SwiftHeader> {
    match h {
        None => None,
        Some(st) => if kind_is(c, "simple_identifier"@) && st.name.len() == 0 {
            match trimmed_text(c) {
                Some(t) => Some(SwiftHeader { name: t, has_params: st.has_params, params: st.params, ret: st.ret }),
                None => None,
            }
        } else if kind_is(c, "parameter"@) {
            Some(SwiftHeader { name: st.name, has_params: true, params: st.params + swift_param(c), ret: st.ret })
        } else if kind_mentions_type(c) && st.has_params {
            match trimmed_text(c) {
                Some(t) => Some(SwiftHeader { name: st.name, has_params: st.has_params, params: st.params, ret: Some(t) }),
                None => None,
            }
        } else {
            Some(st)
        },
    }
}

pub open spec fn swift_header(cs: Seq<SyntaxNode>) -> Option<SwiftHeader>
    decreases cs.len(),
{
    if cs.len() == 0 {
        Some(SwiftHeader { name: seq![], has_params: false, params: seq![], ret: None })
    } else {
        swift_header_step(swift_header(cs.drop_last()), cs.last())
    }
}

pub open spec fn swift_function(n: SyntaxNode) -> Option<SymbolView> {
    match swift_header(n.children@) {
        Some(h) => if h.name.len() > 0 {
            Some(function_symbol(h.name, h.params, h.ret, lines_of_node(n), used_identifiers(n, h.name)))
        } else {
            None
        },
        None => None,
    }
}

/// The name that the first `bound_identifier` among `cs` whose first child
/// is a `simple_identifier` gives.
pub open spec fn bound_name(cs: Seq<SyntaxNode>) -> Option<Seq<char>>
    decreases cs.len(),
{
    if cs.len() == 0 {
        None
    } else if kind_is(cs[0], "bound_identifier"@) && cs[0].children@.len() > 0
        && kind_is(cs[0].children@[0], "simple_identifier"@) {
        Some(trim(text_or(cs[0].children@[0], ""@)))
    } else {
        bound_name(cs.drop_first())
    }
}

/// The name that a pattern binds: that of its bound identifier, else its
/// whole text.
pub open spec fn pattern_name(p: SyntaxNode) -> Option<Seq<char>> {
    match bound_name(p.children@) {
        Some(x) => Some(x),
        None => trimmed_text(p),
    }
}

/// The text of the first of `cs` whose kind mentions a type.
pub open spec fn first_type_text(cs: Seq<SyntaxNode>) -> Option<Seq<char>>
    decreases cs.len(),
{
    if cs.len() == 0 {
        None
    } else if kind_mentions_type(cs[0]) {
        Some(trim(text_or(cs[0], ""@)))
    } else {
        first_type_text(cs.drop_first())
    }
}

/// One child of a declaration read into (name, type): each pattern names it,
/// each type annotation types it.
pub open spec fn swift_binding_step(acc: (Option<Seq<char>>, Option<Seq<char>>), c: SyntaxNode) -> (
    Option<Seq<char>>,
    Option<Seq<char>>,
) {
    if kind_is(c, "pattern"@) {
        (
            match pattern_name(c) {
                Some(x) => Some(x),
                None => acc.0,
            },
            acc.1,
        )
    } else if kind_is(c, "type_annotation"@) {
        (
            acc.0,
            match first_type_text(c.children@) {
                Some(t) => Some(t),
                None => acc.1,
            },
        )
    } else {
        acc
    }
}

pub open spec fn swift_binding(cs: Seq<SyntaxNode>) -> (Option<Seq<char>>, Option<Seq<char>>)
    decreases cs.len(),
{
    if cs.len() == 0 {
        (None, None)
    } else {
        swift_binding_step(swift_binding(cs.drop_last()), cs.last())
    }
}

pub open spec fn swift_variable(n: SyntaxNode) -> Option<SymbolView> {
    let (name, ty) = swift_binding(n.children@);
    match name {
        Some(x) => Some(variable_symbol(x, ty, lines_of_node(n), used_identifiers(n, x))),
        None => None,
    }
}

/// The symbols that a node of a Swift tree defines itself.
pub open spec fn swift_own(n: SyntaxNode) -> Seq<SymbolView> {
    if kind_is(n, "function_declaration"@) {
        opt_seq(swift_function(n))
    } else if kind_is(n, "variable_declaration"@) || kind_is(n, "constant_declaration"@) || kind_is(
        n,
        "property_declaration"@,
    ) {
        opt_seq(swift_variable(n))
    } else {
        seq![]
    }
}

fn swift_param_of(c: &SyntaxNode) -> (r: Option<(String, String)>)
    ensures
        match r {
            Some(p) => swift_param(*c) == seq![(p.0@, p.1@)],
            None => swift_param(*c) == Seq::<(Seq<char>, Seq<char>)>::empty(),
        },
{
    proof {
        reveal_strlit("");
        reveal_strlit("any");
    }
    let mut name = String::new();
    let mut ty = String::from_str("any");
    let mut k: usize = 0;
    while k < c.children.len()
        invariant
            k <= c.children@.len(),
            (name@, ty@) == swift_param_fold(c.children@.take(k as int)),
        decreases c.children@.len() - k,
    {
        let s = &c.children[k];
        assert(c.children@.take(k + 1).drop_last() == c.children@.take(k as int));
        let named = match &s.field {
            Some(f) => crate::text::str_is(f.as_str(), "name"),
            None => false,
        };
        if named && name.as_str().is_empty() {
            name = node_trimmed_text_or(s, "");
        } else if node_kind_mentions_type(s) {
            ty = node_trimmed_text_or(s, "any");
        }
        k = k + 1;
    }
    assert(c.children@.take(c.children@.len() as int) == c.children@);
    if name.as_str().is_empty() {
        None
    } else {
        Some((name, ty))
    }
}

/// Reads the header of a function declaration: its name, parameters and
/// return type, or `None` where the reading ends early.
fn swift_header_of(n: &SyntaxNode) -> (r: Option<(String, Vec<(String, String)>, Option<String>)>)
    ensures
        match swift_header(n.children@) {
            Some(h) => r matches Some(x) && x.0@ == h.name && pairs_view(x.1@) == h.params && opt_string_view(x.2)
                == h.ret,
            None => r is None,
        },
{
    let mut name = String::new();
    let mut has_params = false;
    let mut params: Vec<(String, String)> = Vec::new();
    let mut ret: Option<String> = None;
    let mut ok = true;
    let mut i: usize = 0;
    proof { reveal_strlit(""); }
    assert(pairs_view(params@) =~= Seq::<(Seq<char>, Seq<char>)>::empty());
    while i < n.children.len()
        invariant
            i <= n.children@.len(),
            ok ==> swift_header(n.children@.take(i as int)) == Some(
                SwiftHeader { name: name@, has_params, params: pairs_view(params@), ret: opt_string_view(ret) },
            ),
            !ok ==> swift_header(n.children@.take(i as int)) is None,
        decreases n.children@.len() - i,
    {
        let c = &n.children[i];
        assert(n.children@.take(i + 1).drop_last() == n.children@.take(i as int));
        if ok {
            if node_kind_is(c, "simple_identifier") && name.as_str().is_empty() {
                match node_trimmed_text(c) {
                    Some(t) => {
                        name = t;
                    },
                    None => {
                        ok = false;
                    },
                }
            } else if node_kind_is(c, "parameter") {
                has_params = true;
                let ghost before = pairs_view(params@);
                match swift_param_of(c) {
                    Some(p) => {
                        params.push(p);
                        assert(pairs_view(params@) =~= before + swift_param(*c));
                    },
                    None => {
                        assert(pairs_view(params@) =~= before + swift_param(*c));
                    },
                }
            } else if node_kind_mentions_type(c) && has_params {
                match node_trimmed_text(c) {
                    Some(t) => {
                        ret = Some(t);
                    },
                    None => {
                        ok = false;
                    },
                }
            }
        }
        i = i + 1;
    }
    assert(n.children@.take(n.children@.len() as int) == n.children@);
    if ok {
        Some((name, params, ret))
    } else {
        None
    }
}

/// The name a pattern binds.
fn pattern_name_of(p: &SyntaxNode) -> (r: Option<String>)
    ensures
        opt_string_view(r) == pattern_name(*p),
{
    proof { reveal_strlit(""); }
    let ghost cs = p.children@;
    let mut k: usize = 0;
    assert(cs.skip(0) == cs);
    while k < p.children.len()
        invariant
            k <= cs.len(),
            cs == p.children@,
            bound_name(cs) == bound_name(cs.skip(k as int)),
        decreases cs.len() - k,
    {
        let s = &p.children[k];
        if node_kind_is(s, "bound_identifier") && s.children.len() > 0 && node_kind_is(&s.children[0], "simple_identifier") {
            return Some(node_trimmed_text_or(&s.children[0], ""));
        }
        assert(cs.skip(k as int).drop_first() == cs.skip(k + 1));
        k = k + 1;
    }
    node_trimmed_text(p)
}

/// The text of the first child of `a` whose kind mentions a type.
fn first_type_text_of(a: &SyntaxNode) -> (r: Option<String>)
    ensures
        opt_string_view(r) == first_type_text(a.children@),
{
    proof { reveal_strlit(""); }
    let ghost cs = a.children@;
    let mut k: usize = 0;
    assert(cs.skip(0) == cs);
    while k < a.children.len()
        invariant
            k <= cs.len(),
            cs == a.children@,
            first_type_text(cs) == first_type_text(cs.skip(k as int)),
        decreases cs.len() - k,
    {
        let s = &a.children[k];
        if node_kind_mentions_type(s) {
            return Some(node_trimmed_text_or(s, ""));
        }
        assert(cs.skip(k as int).drop_first() == cs.skip(k + 1));
        k = k + 1;
    }
    None
}

fn swift_binding_of(n: &SyntaxNode) -> (r: (Option<String>, Option<String>))
    ensures
        (opt_string_view(r.0), opt_string_view(r.1)) == swift_binding(n.children@),
{
    let mut name: Option<String> = None;
    let mut ty: Option<String> = None;
    let mut i: usize = 0;
    while i < n.children.len()
        invariant
            i <= n.children@.len(),
            (opt_string_view(name), opt_string_view(ty)) == swift_binding(n.children@.take(i as int)),
        decreases n.children@.len() - i,
    {
        let c = &n.children[i];
        assert(n.children@.take(i + 1).drop_last() == n.children@.take(i as int));
        if node_kind_is(c, "pattern") {
            if let Some(x) = pattern_name_of(c) {
                name = Some(x);
            }
        } else if node_kind_is(c, "type_annotation") {
            if let Some(t) = first_type_text_of(c) {
                ty = Some(t);
            }
        }
        i = i + 1;
    }
    assert(n.children@.take(n.children@.len() as int) == n.children@);
    (name, ty)
}

/// Adds the symbols that node `n` of a Swift tree defines itself.
pub fn swift_own_of(n: &SyntaxNode, out: &mut Vec<SymbolInfo>)
    ensures
        symbols_view(final(out)@) == symbols_view(old(out)@) + swift_own(*n),
{
    if node_kind_is(n, "function_declaration") {
        let s = match swift_header_of(n) {
            Some((name, params, ret)) => if name.as_str().is_empty() {
                None
            } else {
                let used = used_identifiers_of(n, &name);
                Some(make_function(name, params, ret, node_lines(n), used))
            },
            None => None,
        };
        push_opt_symbol(out, s);
    } else if node_kind_is(n, "variable_declaration") || node_kind_is(n, "constant_declaration")
        || node_kind_is(n, "property_declaration") {
        let (name, ty) = swift_binding_of(n);
        let s = match name {
            Some(x) => {
                let used = used_identifiers_of(n, &x);
                Some(make_variable(x, ty, node_lines(n), used))
            },
            None => None,
        };
        push_opt_symbol(out, s);
    } else {
        assert(symbols_view(out@) =~= symbols_view(out@) + Seq::<SymbolView>::empty());
    }
}

} // verus!
