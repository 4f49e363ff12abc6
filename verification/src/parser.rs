//! Reading the symbols that a source file defines: the walk over its
//! syntax tree, with the rules of its language at each node.
use vstd::prelude::*;
use crate::grammars::{short_text, syntax_of, syntax_tree, Grammar};
use crate::extract::{
    all_code_shaped, all_from_node, all_lines_within, field_trimmed, lemma_concat_from_node, lemma_concat_lines_within,
    lemma_concat_shaped,
};
use crate::langs::c_family::{c_declared, c_declared_list, c_node_halts, c_node_halts_check, c_own, c_own_of};
use crate::langs::csharp::{cs_declarator, cs_declarator_list, cs_own, cs_own_of, cs_target};
use crate::langs::go::{go_own, go_own_of};
use crate::langs::java::{java_declarator, java_declarator_list, java_own, java_own_of};
use crate::langs::kotlin::{kt_own, kt_own_of};
use crate::langs::python::{py_own, py_own_of};
use crate::langs::ruby::{rb_own, rb_own_of};
use crate::langs::rust::{rust_own, rust_own_of};
use crate::langs::swift::{swift_own, swift_own_of};
use crate::langs::typescript::{ts_declarator, ts_declarators, ts_own, ts_own_of};
use crate::symbols::{symbols_view, SymbolInfo, SymbolView};
use crate::syntax::{
    lines_of_node, field_child, kind_is, lemma_all_used_identifiers_distinct, line_feeds, rows_within, rows_within_all, trimmed_text,
    SyntaxNode,
};
use crate::text::str_is;

verus! {

/// The symbols that node `n` of a tree of grammar `g` defines itself.
pub open spec fn own_symbols(g: Grammar, n: SyntaxNode) -> Seq<SymbolView> {
    match g {
        Grammar::Rust => rust_own(n),
        Grammar::TypeScript => ts_own(n),
        Grammar::Python => py_own(n),
        Grammar::Go => go_own(n),
        Grammar::C | Grammar::Cpp => c_own(n),
        Grammar::CSharp => cs_own(n),
        Grammar::Ruby => rb_own(n),
        Grammar::Swift => swift_own(n),
        Grammar::Kotlin => kt_own(n),
        Grammar::Java => java_own(n),
    }
}

/// `true` when the rules of grammar `g` finish reading node `n`: in C and
/// C++, a declarator chain that never ends would be followed forever.
pub open spec fn node_halts(g: Grammar, n: SyntaxNode) -> bool {
    match g {
        Grammar::C | Grammar::Cpp => c_node_halts(n),
        _ => true,
    }
}

/// `true` when the rules of grammar `g` finish reading every node of the
/// tree of `n`.
pub open spec fn tree_halts(g: Grammar, n: SyntaxNode) -> bool
    decreases n,
{
    node_halts(g, n) && forest_halts(g, n.children@)
}

pub open spec fn forest_halts(g: Grammar, cs: Seq<SyntaxNode>) -> bool
    decreases cs,
{
    if cs.len() == 0 {
        true
    } else {
        forest_halts(g, cs.drop_last()) && tree_halts(g, cs.last())
    }
}

/// Each tree of a forest whose reading finishes finishes too.
proof fn lemma_forest_halts_each(g: Grammar, cs: Seq<SyntaxNode>, i: int)
    requires
        forest_halts(g, cs),
        0 <= i < cs.len(),
    ensures
        tree_halts(g, cs[i]),
    decreases cs.len(),
{
    if i < cs.len() - 1 {
        assert(cs.drop_last()[i] == cs[i]);
        lemma_forest_halts_each(g, cs.drop_last(), i);
    }
}

/// The symbols that the tree of `n` defines, in the order of a walk that
/// visits a node before its children.
pub open spec fn tree_symbols(g: Grammar, n: SyntaxNode) -> Seq<SymbolView>
    decreases n,
{
    own_symbols(g, n) + forest_symbols(g, n.children@)
}

pub open spec fn forest_symbols(g: Grammar, cs: Seq<SyntaxNode>) -> Seq<SymbolView>
    decreases cs,
{
    if cs.len() == 0 {
        seq![]
    } else {
        forest_symbols(g, cs.drop_last()) + tree_symbols(g, cs.last())
    }
}

fn own_symbols_of(g: Grammar, n: &SyntaxNode, out: &mut Vec<SymbolInfo>)
    requires
        node_halts(g, *n),
    ensures
        symbols_view(final(out)@) == symbols_view(old(out)@) + own_symbols(g, *n),
{
    match g {
        Grammar::Rust => rust_own_of(n, out),
        Grammar::TypeScript => ts_own_of(n, out),
        Grammar::Python => py_own_of(n, out),
        Grammar::Go => go_own_of(n, out),
        Grammar::C | Grammar::Cpp => c_own_of(n, out),
        Grammar::CSharp => cs_own_of(n, out),
        Grammar::Ruby => rb_own_of(n, out),
        Grammar::Swift => swift_own_of(n, out),
        Grammar::Kotlin => kt_own_of(n, out),
        Grammar::Java => java_own_of(n, out),
    }
}

/// Whether the rules of grammar `g` finish reading every node of the tree.
pub fn tree_halts_check(g: Grammar, n: &SyntaxNode) -> (b: bool)
    ensures
        b == tree_halts(g, *n),
    decreases n,
{
    let here = match g {
        Grammar::C | Grammar::Cpp => c_node_halts_check(n),
        _ => true,
    };
    if !here {
        return false;
    }
    let mut i: usize = 0;
    while i < n.children.len()
        invariant
            i <= n.children@.len(),
            node_halts(g, *n),
            forest_halts(g, n.children@.take(i as int)),
        decreases n.children@.len() - i,
    {
        if !tree_halts_check(g, &n.children[i]) {
            proof {
                if forest_halts(g, n.children@) {
                    lemma_forest_halts_each(g, n.children@, i as int);
                }
            }
            return false;
        }
        assert(n.children@.take(i + 1).drop_last() == n.children@.take(i as int));
        i = i + 1;
    }
    assert(n.children@.take(n.children@.len() as int) == n.children@);
    true
}

fn walk_tree(g: Grammar, n: &SyntaxNode, out: &mut Vec<SymbolInfo>)
    requires
        tree_halts(g, *n),
    ensures
        symbols_view(final(out)@) == symbols_view(old(out)@) + tree_symbols(g, *n),
    decreases n,
{
    let ghost before = symbols_view(out@);
    own_symbols_of(g, n, out);
    let ghost mid = symbols_view(out@);
    let mut i: usize = 0;
    assert(forest_symbols(g, n.children@.take(0)) =~= Seq::<SymbolView>::empty());
    while i < n.children.len()
        invariant
            i <= n.children@.len(),
            tree_halts(g, *n),
            symbols_view(out@) == mid + forest_symbols(g, n.children@.take(i as int)),
        decreases n.children@.len() - i,
    {
        proof { lemma_forest_halts_each(g, n.children@, i as int); }
        walk_tree(g, &n.children[i], out);
        assert(n.children@.take(i + 1).drop_last() == n.children@.take(i as int));
        i = i + 1;
    }
    assert(n.children@.take(n.children@.len() as int) == n.children@);
    assert(symbols_view(out@) =~= before + (own_symbols(g, *n) + forest_symbols(g, n.children@)));
}

/// The symbols that a syntax tree of grammar `g` defines.
pub fn symbols_of_tree(g: Grammar, tree: &SyntaxNode) -> (symbols: Vec<SymbolInfo>)
    requires
        tree_halts(g, *tree),
    ensures
        symbols_view(symbols@) == tree_symbols(g, *tree),
{
    let mut out: Vec<SymbolInfo> = Vec::new();
    walk_tree(g, tree, &mut out);
    assert(symbols_view(out@) =~= Seq::<SymbolView>::empty() + tree_symbols(g, *tree));
    out
}

/// The symbols that source text `code` of grammar `g` defines: none where
/// the grammar yields no tree, or where its rules would never finish
/// reading the tree.
pub open spec fn code_symbols(g: Grammar, code: Seq<char>) -> Seq<SymbolView> {
    match syntax_of(g, code) {
        Some(t) => if tree_halts(g, t) {
            tree_symbols(g, t)
        } else {
            seq![]
        },
        None => seq![],
    }
}

/// Parses `code` with grammar `g` and reads the symbols it defines.
pub fn parse_with(g: Grammar, code: &str) -> (symbols: Vec<SymbolInfo>)
    ensures
        symbols_view(symbols@) == code_symbols(g, code@),
        short_text(code@) ==> all_lines_within(symbols_view(symbols@), line_feeds(code@)),
{
    match syntax_tree(g, code) {
        Some(t) => if tree_halts_check(g, &t) {
            proof {
                if short_text(code@) {
                    lemma_line_feeds_bound(code@);
                    lemma_tree_lines_within(g, t, line_feeds(code@));
                }
            }
            symbols_of_tree(g, &t)
        } else {
            let v: Vec<SymbolInfo> = Vec::new();
            assert(symbols_view(v@) =~= Seq::<SymbolView>::empty());
            v
        },
        None => {
            let v: Vec<SymbolInfo> = Vec::new();
            assert(symbols_view(v@) =~= Seq::<SymbolView>::empty());
            v
        },
    }
}

/// The grammar that a language name selects, as `parse_code` reads it
/// after lowering its case.
pub open spec fn grammar_named(name: Seq<char>) -> Option<Grammar> {
    if name == "rust"@ || name == "rs"@ {
        Some(Grammar::Rust)
    } else if name == "typescript"@ || name == "ts"@ || name == "tsx"@ || name == "javascript"@ || name == "js"@
        || name == "jsx"@ {
        Some(Grammar::TypeScript)
    } else if name == "python"@ || name == "py"@ {
        Some(Grammar::Python)
    } else if name == "go"@ {
        Some(Grammar::Go)
    } else if name == "c"@ {
        Some(Grammar::C)
    } else if name == "cpp"@ {
        Some(Grammar::Cpp)
    } else if name == "csharp"@ {
        Some(Grammar::CSharp)
    } else if name == "ruby"@ {
        Some(Grammar::Ruby)
    } else if name == "swift"@ {
        Some(Grammar::Swift)
    } else if name == "kotlin"@ {
        Some(Grammar::Kotlin)
    } else if name == "java"@ {
        Some(Grammar::Java)
    } else {
        None
    }
}

/// The grammar that language name `name` selects.
pub fn grammar_of_name(name: &str) -> (g: Option<Grammar>)
    ensures
        g == grammar_named(name@),
{
    if str_is(name, "rust") || str_is(name, "rs") {
        Some(Grammar::Rust)
    } else if str_is(name, "typescript") || str_is(name, "ts") || str_is(name, "tsx") || str_is(name, "javascript")
        || str_is(name, "js") || str_is(name, "jsx") {
        Some(Grammar::TypeScript)
    } else if str_is(name, "python") || str_is(name, "py") {
        Some(Grammar::Python)
    } else if str_is(name, "go") {
        Some(Grammar::Go)
    } else if str_is(name, "c") {
        Some(Grammar::C)
    } else if str_is(name, "cpp") {
        Some(Grammar::Cpp)
    } else if str_is(name, "csharp") {
        Some(Grammar::CSharp)
    } else if str_is(name, "ruby") {
        Some(Grammar::Ruby)
    } else if str_is(name, "swift") {
        Some(Grammar::Swift)
    } else if str_is(name, "kotlin") {
        Some(Grammar::Kotlin)
    } else if str_is(name, "java") {
        Some(Grammar::Java)
    } else {
        None
    }
}

/// The symbols that `code` defines, read with the grammar that language
/// name `lang` selects in any case of letters; none for a name it does not
/// know.
/// Each lies on lines `a..=b` with `1 <= a <= b <=` one more than the number
/// of line feeds in `code`, for any text shorter than tree-sitter's limit.
pub fn parse_code(code: &str, lang: &str) -> (symbols: Vec<SymbolInfo>)
    ensures
        symbols_view(symbols@) == match grammar_named(crate::text::lowercase(lang@)) {
            Some(g) => code_symbols(g, code@),
            None => Seq::<SymbolView>::empty(),
        },
        short_text(code@) ==> all_lines_within(symbols_view(symbols@), line_feeds(code@)),
{
    let lowered = crate::text::to_lowercase(lang);
    match grammar_of_name(lowered.as_str()) {
        Some(g) => parse_with(g, code),
        None => {
            let v: Vec<SymbolInfo> = Vec::new();
            assert(symbols_view(v@) =~= Seq::<SymbolView>::empty());
            v
        },
    }
}

pub fn parse_rust_code(code: &str) -> (symbols: Vec<SymbolInfo>)
    ensures
        symbols_view(symbols@) == code_symbols(Grammar::Rust, code@),
        short_text(code@) ==> all_lines_within(symbols_view(symbols@), line_feeds(code@)),
{
    parse_with(Grammar::Rust, code)
}

pub fn parse_typescript_code(code: &str) -> (symbols: Vec<SymbolInfo>)
    ensures
        symbols_view(symbols@) == code_symbols(Grammar::TypeScript, code@),
        short_text(code@) ==> all_lines_within(symbols_view(symbols@), line_feeds(code@)),
{
    parse_with(Grammar::TypeScript, code)
}

pub fn parse_python_code(code: &str) -> (symbols: Vec<SymbolInfo>)
    ensures
        symbols_view(symbols@) == code_symbols(Grammar::Python, code@),
        short_text(code@) ==> all_lines_within(symbols_view(symbols@), line_feeds(code@)),
{
    parse_with(Grammar::Python, code)
}

pub fn parse_go_code(code: &str) -> (symbols: Vec<SymbolInfo>)
    ensures
        symbols_view(symbols@) == code_symbols(Grammar::Go, code@),
        short_text(code@) ==> all_lines_within(symbols_view(symbols@), line_feeds(code@)),
{
    parse_with(Grammar::Go, code)
}

pub fn parse_c_code(code: &str) -> (symbols: Vec<SymbolInfo>)
    ensures
        symbols_view(symbols@) == code_symbols(Grammar::C, code@),
        short_text(code@) ==> all_lines_within(symbols_view(symbols@), line_feeds(code@)),
{
    parse_with(Grammar::C, code)
}

pub fn parse_cpp_code(code: &str) -> (symbols: Vec<SymbolInfo>)
    ensures
        symbols_view(symbols@) == code_symbols(Grammar::Cpp, code@),
        short_text(code@) ==> all_lines_within(symbols_view(symbols@), line_feeds(code@)),
{
    parse_with(Grammar::Cpp, code)
}

pub fn parse_csharp_code(code: &str) -> (symbols: Vec<SymbolInfo>)
    ensures
        symbols_view(symbols@) == code_symbols(Grammar::CSharp, code@),
        short_text(code@) ==> all_lines_within(symbols_view(symbols@), line_feeds(code@)),
{
    parse_with(Grammar::CSharp, code)
}

pub fn parse_ruby_code(code: &str) -> (symbols: Vec<SymbolInfo>)
    ensures
        symbols_view(symbols@) == code_symbols(Grammar::Ruby, code@),
        short_text(code@) ==> all_lines_within(symbols_view(symbols@), line_feeds(code@)),
{
    parse_with(Grammar::Ruby, code)
}

pub fn parse_swift_code(code: &str) -> (symbols: Vec<SymbolInfo>)
    ensures
        symbols_view(symbols@) == code_symbols(Grammar::Swift, code@),
        short_text(code@) ==> all_lines_within(symbols_view(symbols@), line_feeds(code@)),
{
    parse_with(Grammar::Swift, code)
}

pub fn parse_kotlin_code(code: &str) -> (symbols: Vec<SymbolInfo>)
    ensures
        symbols_view(symbols@) == code_symbols(Grammar::Kotlin, code@),
        short_text(code@) ==> all_lines_within(symbols_view(symbols@), line_feeds(code@)),
{
    parse_with(Grammar::Kotlin, code)
}

pub fn parse_java_code(code: &str) -> (symbols: Vec<SymbolInfo>)
    ensures
        symbols_view(symbols@) == code_symbols(Grammar::Java, code@),
        short_text(code@) ==> all_lines_within(symbols_view(symbols@), line_feeds(code@)),
{
    parse_with(Grammar::Java, code)
}

proof fn lemma_c_declared_list_shaped(n: SyntaxNode, ty: Option<Seq<char>>, cs: Seq<SyntaxNode>)
    ensures
        all_code_shaped(c_declared_list(n, ty, cs)),
        all_from_node(c_declared_list(n, ty, cs), n),
    decreases cs.len(),
{
    if cs.len() > 0 {
        lemma_all_used_identifiers_distinct();
        lemma_c_declared_list_shaped(n, ty, cs.drop_last());
        lemma_concat_shaped(c_declared_list(n, ty, cs.drop_last()), c_declared(n, ty, cs.last()));
        lemma_concat_from_node(c_declared_list(n, ty, cs.drop_last()), c_declared(n, ty, cs.last()), n);
    }
}

proof fn lemma_cs_declarator_list_shaped(n: SyntaxNode, ty: Option<Seq<char>>, cs: Seq<SyntaxNode>)
    ensures
        all_code_shaped(cs_declarator_list(n, ty, cs)),
        all_from_node(cs_declarator_list(n, ty, cs), n),
    decreases cs.len(),
{
    if cs.len() > 0 {
        lemma_all_used_identifiers_distinct();
        lemma_cs_declarator_list_shaped(n, ty, cs.drop_last());
        lemma_concat_shaped(cs_declarator_list(n, ty, cs.drop_last()), cs_declarator(n, ty, cs.last()));
        lemma_concat_from_node(cs_declarator_list(n, ty, cs.drop_last()), cs_declarator(n, ty, cs.last()), n);
    }
}

proof fn lemma_java_declarator_list_shaped(n: SyntaxNode, ty: Option<Seq<char>>, cs: Seq<SyntaxNode>)
    ensures
        all_code_shaped(java_declarator_list(n, ty, cs)),
        all_from_node(java_declarator_list(n, ty, cs), n),
    decreases cs.len(),
{
    if cs.len() > 0 {
        lemma_all_used_identifiers_distinct();
        lemma_java_declarator_list_shaped(n, ty, cs.drop_last());
        lemma_concat_shaped(java_declarator_list(n, ty, cs.drop_last()), java_declarator(n, ty, cs.last()));
        lemma_concat_from_node(java_declarator_list(n, ty, cs.drop_last()), java_declarator(n, ty, cs.last()), n);
    }
}

proof fn lemma_ts_declarators_shaped(n: SyntaxNode, cs: Seq<SyntaxNode>)
    ensures
        all_code_shaped(ts_declarators(n, cs)),
        all_from_node(ts_declarators(n, cs), n),
    decreases cs.len(),
{
    if cs.len() > 0 {
        lemma_all_used_identifiers_distinct();
        lemma_ts_declarators_shaped(n, cs.drop_last());
        lemma_concat_shaped(ts_declarators(n, cs.drop_last()), ts_declarator(n, cs.last()));
        lemma_concat_from_node(ts_declarators(n, cs.drop_last()), ts_declarator(n, cs.last()), n);
    }
}

/// What a node defines itself is shaped as symbols read off a source file.
proof fn lemma_own_symbols_shaped(g: Grammar, n: SyntaxNode)
    ensures
        all_code_shaped(own_symbols(g, n)),
        all_from_node(own_symbols(g, n), n),
{
    lemma_all_used_identifiers_distinct();
    match g {
        Grammar::C | Grammar::Cpp => {
            if !kind_is(n, "function_definition"@) && kind_is(n, "declaration"@) {
                if let Some(t) = field_child(n, "type"@) {
                    lemma_c_declared_list_shaped(n, trimmed_text(t), n.children@);
                }
            }
        },
        Grammar::CSharp => {
            lemma_cs_declarator_list_shaped(n, field_trimmed(cs_target(n), "type"@), cs_target(n).children@);
        },
        Grammar::Java => {
            lemma_java_declarator_list_shaped(n, field_trimmed(n, "type"@), n.children@);
        },
        Grammar::TypeScript => {
            lemma_ts_declarators_shaped(n, n.children@);
        },
        _ => {},
    }
}

proof fn lemma_tree_symbols_shaped(g: Grammar, n: SyntaxNode)
    ensures
        all_code_shaped(tree_symbols(g, n)),
    decreases n,
{
    lemma_own_symbols_shaped(g, n);
    lemma_forest_symbols_shaped(g, n.children@);
    lemma_concat_shaped(own_symbols(g, n), forest_symbols(g, n.children@));
}

proof fn lemma_forest_symbols_shaped(g: Grammar, cs: Seq<SyntaxNode>)
    ensures
        all_code_shaped(forest_symbols(g, cs)),
    decreases cs,
{
    if cs.len() > 0 {
        lemma_forest_symbols_shaped(g, cs.drop_last());
        lemma_tree_symbols_shaped(g, cs.last());
        lemma_concat_shaped(forest_symbols(g, cs.drop_last()), tree_symbols(g, cs.last()));
    }
}

/// Law: every symbol that source text yields, in any grammar, has lines
/// counted from 1, no document line and no dependencies, lists the
/// identifiers it uses once each and never with its own name, and is a
/// function with parameters and no variable type or a variable with no
/// parameters and no return type.
pub proof fn lemma_code_symbols_shaped(g: Grammar, code: Seq<char>)
    ensures
        all_code_shaped(code_symbols(g, code)),
{
    if let Some(t) = syntax_of(g, code) {
        if tree_halts(g, t) {
            lemma_tree_symbols_shaped(g, t);
        }
    }
}

/// Law: so is every symbol that `parse_code` returns, for every language
/// name.
pub proof fn lemma_parsed_symbols_shaped(code: Seq<char>, lang: Seq<char>)
    ensures
        all_code_shaped(match grammar_named(crate::text::lowercase(lang)) {
            Some(g) => code_symbols(g, code),
            None => Seq::<SymbolView>::empty(),
        }),
{
    if let Some(g) = grammar_named(crate::text::lowercase(lang)) {
        lemma_code_symbols_shaped(g, code);
    }
}

/// The symbols of a node's own definitions lie within the first `k + 1`
/// lines where the node's rows end no later than row `k`.
proof fn lemma_own_lines_within(g: Grammar, n: SyntaxNode, k: nat)
    requires
        n.start_row <= n.end_row,
        n.end_row <= k,
        k < usize::MAX,
    ensures
        all_lines_within(own_symbols(g, n), k),
{
    lemma_own_symbols_shaped(g, n);
    let ss = own_symbols(g, n);
    assert forall|i: int| 0 <= i < ss.len() implies #[trigger] crate::extract::lines_within(ss[i], k) by {
        assert(ss[i].line_range == lines_of_node(n));
    }
}

proof fn lemma_tree_lines_within(g: Grammar, n: SyntaxNode, k: nat)
    requires
        rows_within(n, k),
        k < usize::MAX,
    ensures
        all_lines_within(tree_symbols(g, n), k),
    decreases n,
{
    lemma_own_lines_within(g, n, k);
    lemma_forest_lines_within(g, n.children@, k);
    lemma_concat_lines_within(own_symbols(g, n), forest_symbols(g, n.children@), k);
}

proof fn lemma_forest_lines_within(g: Grammar, cs: Seq<SyntaxNode>, k: nat)
    requires
        rows_within_all(cs, k),
        k < usize::MAX,
    ensures
        all_lines_within(forest_symbols(g, cs), k),
    decreases cs,
{
    if cs.len() > 0 {
        lemma_forest_lines_within(g, cs.drop_last(), k);
        lemma_tree_lines_within(g, cs.last(), k);
        lemma_concat_lines_within(forest_symbols(g, cs.drop_last()), tree_symbols(g, cs.last()), k);
    }
}

proof fn lemma_line_feeds_bound(s: Seq<char>)
    ensures
        line_feeds(s) <= s.len(),
    decreases s.len(),
{
    if s.len() > 0 {
        lemma_line_feeds_bound(s.drop_last());
    }
}

/// Law: in a Rust tree, a `static` item, like a `const` item, whose name
/// field has text defines exactly one symbol of its own: a variable with
/// that name, the trimmed text of its type field as its type and the item's
/// lines; it comes first among the symbols of the item's tree.
pub proof fn lemma_rust_static_and_const_items(n: SyntaxNode)
    requires
        n.kind@ == "static_item"@ || n.kind@ == "const_item"@,
        field_child(n, "name"@) matches Some(c) && c.text is Some,
    ensures
        own_symbols(Grammar::Rust, n).len() == 1,
        ({
            let v = own_symbols(Grammar::Rust, n)[0];
            &&& v.kind == crate::symbols::SymbolKind::Variable
            &&& v.name == field_child(n, "name"@)->0.text->0@
            &&& v.var_type == field_trimmed(n, "type"@)
            &&& v.line_range == lines_of_node(n)
            &&& v.params is None
            &&& v.return_type is None
        }),
        tree_symbols(Grammar::Rust, n)[0] == own_symbols(Grammar::Rust, n)[0],
{
    reveal_strlit("static_item");
    reveal_strlit("const_item");
    reveal_strlit("function_item");
    assert(n.kind@ != "function_item"@) by {
        if n.kind@ == "static_item"@ {
            assert("static_item"@.len() != "function_item"@.len());
        } else {
            assert("const_item"@.len() != "function_item"@.len());
        }
    }
    let own = own_symbols(Grammar::Rust, n);
    assert(own.len() == 1);
    assert((own + forest_symbols(Grammar::Rust, n.children@))[0] == own[0]);
}

} // verus!
