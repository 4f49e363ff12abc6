//! The tree-sitter grammars: each turns a source text into a syntax tree.
use vstd::prelude::*;
use crate::syntax::{line_feeds, rows_within, SyntaxNode};

verus! {

#[verifier::external_type_specification]
#[verifier::external_body]
pub struct ExTreeSitterNode<'tree>(tree_sitter::Node<'tree>);

/// The languages whose source files the auditor reads.
#[derive(Debug, Clone, Copy, PartialEq, Eq, Structural)]
pub enum Grammar {
    Rust,
    TypeScript,
    Python,
    Go,
    C,
    Cpp,
    CSharp,
    Ruby,
    Swift,
    Kotlin,
    Java,
}

/// Copies a tree-sitter node and the nodes below it into plain values, one
/// `SyntaxNode` per node: its kind, the field name that the tree cursor
/// reports for it, `Node::utf8_text` of it, its byte range, its start and
/// end rows, and its children in order. Nothing is stated of the copy; the
/// wrappers below name the whole tree.
#[verifier::external_body]
fn copy_node(node: tree_sitter::Node, field: Option<&str>, code: &str) -> SyntaxNode {
    let mut children = Vec::new();
    let mut cursor = node.walk();
    let mut more = cursor.goto_first_child();
    while more {
        children.push(copy_node(cursor.node(), cursor.field_name(), code));
        more = cursor.goto_next_sibling();
    }
    let text = node.utf8_text(code.as_bytes()).ok().map(String::from);
    let (start_row, end_row) = (node.start_position().row, node.end_position().row);
    let (start_byte, end_byte) = (node.start_byte(), node.end_byte());
    let kind = node.kind().to_string();
    SyntaxNode { kind, field: field.map(String::from), text, start_byte, end_byte, start_row, end_row, children }
}

/// A text short enough that tree-sitter's 32-bit byte and row counts hold
/// it: under `u32::MAX` bytes however its characters are encoded. For such a
/// text the parse wrappers below state, of every node of the tree, that it
/// starts on a row no later than the one it ends on, and ends on a row no
/// later than the number of line feeds in the text: tree-sitter's lexer
/// counts one row at each line feed it reads (`lexer.c`,
/// `ts_lexer__do_advance`), a node's end point is its start point plus its
/// size, and no node reaches past the end of the text. Of longer texts
/// nothing is stated of the rows.
pub open spec fn short_text(code: Seq<char>) -> bool {
    4 * code.len() < 0xffff_ffff
}

/// The syntax tree that tree-sitter-rust gives a source text; `None` where
/// the grammar cannot be loaded or the parse yields no tree.
pub uninterp spec fn rust_syntax(code: Seq<char>) -> Option<SyntaxNode>;
/// The syntax tree that tree-sitter-typescript (the TypeScript grammar) gives a source text.
pub uninterp spec fn typescript_syntax(code: Seq<char>) -> Option<SyntaxNode>;
/// The syntax tree that tree-sitter-python gives a source text.
pub uninterp spec fn python_syntax(code: Seq<char>) -> Option<SyntaxNode>;
/// The syntax tree that tree-sitter-go gives a source text.
pub uninterp spec fn go_syntax(code: Seq<char>) -> Option<SyntaxNode>;
/// The syntax tree that tree-sitter-c gives a source text.
pub uninterp spec fn c_syntax(code: Seq<char>) -> Option<SyntaxNode>;
/// The syntax tree that tree-sitter-cpp gives a source text.
pub uninterp spec fn cpp_syntax(code: Seq<char>) -> Option<SyntaxNode>;
/// The syntax tree that tree-sitter-c-sharp gives a source text.
pub uninterp spec fn csharp_syntax(code: Seq<char>) -> Option<SyntaxNode>;
/// The syntax tree that tree-sitter-ruby gives a source text.
pub uninterp spec fn ruby_syntax(code: Seq<char>) -> Option<SyntaxNode>;
/// The syntax tree that tree-sitter-swift gives a source text.
pub uninterp spec fn swift_syntax(code: Seq<char>) -> Option<SyntaxNode>;
/// The syntax tree that tree-sitter-kotlin gives a source text.
pub uninterp spec fn kotlin_syntax(code: Seq<char>) -> Option<SyntaxNode>;
/// The syntax tree that tree-sitter-java gives a source text.
pub uninterp spec fn java_syntax(code: Seq<char>) -> Option<SyntaxNode>;

/// Parses with `tree_sitter::Parser` and `tree_sitter_rust::language()`; the
/// tree depends on `code` alone.
/// For a `short_text`, its rows are as `rows_within` says (see
/// `short_text`).
#[verifier::external_body]
fn parse_rust_syntax(code: &str) -> (t: Option<SyntaxNode>)
    ensures
        t == rust_syntax(code@),
        short_text(code@) ==> (t matches Some(n) ==> rows_within(n, line_feeds(code@))),
{
    let mut parser = tree_sitter::Parser::new();
    parser.set_language(tree_sitter_rust::language()).ok()?;
    let tree = parser.parse(code, None)?;
    Some(copy_node(tree.root_node(), None, code))
}

/// Parses with `tree_sitter::Parser` and
/// `tree_sitter_typescript::language_typescript()`; the tree depends on
/// `code` alone.
/// For a `short_text`, its rows are as `rows_within` says (see
/// `short_text`).
#[verifier::external_body]
fn parse_typescript_syntax(code: &str) -> (t: Option<SyntaxNode>)
    ensures
        t == typescript_syntax(code@),
        short_text(code@) ==> (t matches Some(n) ==> rows_within(n, line_feeds(code@))),
{
    let mut parser = tree_sitter::Parser::new();
    parser.set_language(tree_sitter_typescript::language_typescript()).ok()?;
    let tree = parser.parse(code, None)?;
    Some(copy_node(tree.root_node(), None, code))
}

/// Parses with `tree_sitter::Parser` and `tree_sitter_python::language()`;
/// the tree depends on `code` alone.
/// For a `short_text`, its rows are as `rows_within` says (see
/// `short_text`).
#[verifier::external_body]
fn parse_python_syntax(code: &str) -> (t: Option<SyntaxNode>)
    ensures
        t == python_syntax(code@),
        short_text(code@) ==> (t matches Some(n) ==> rows_within(n, line_feeds(code@))),
{
    let mut parser = tree_sitter::Parser::new();
    parser.set_language(tree_sitter_python::language()).ok()?;
    let tree = parser.parse(code, None)?;
    Some(copy_node(tree.root_node(), None, code))
}

/// Parses with `tree_sitter::Parser` and `tree_sitter_go::language()`; the
/// tree depends on `code` alone.
/// For a `short_text`, its rows are as `rows_within` says (see
/// `short_text`).
#[verifier::external_body]
fn parse_go_syntax(code: &str) -> (t: Option<SyntaxNode>)
    ensures
        t == go_syntax(code@),
        short_text(code@) ==> (t matches Some(n) ==> rows_within(n, line_feeds(code@))),
{
    let mut parser = tree_sitter::Parser::new();
    parser.set_language(tree_sitter_go::language()).ok()?;
    let tree = parser.parse(code, None)?;
    Some(copy_node(tree.root_node(), None, code))
}

/// Parses with `tree_sitter::Parser` and `tree_sitter_c::language()`; the
/// tree depends on `code` alone.
/// For a `short_text`, its rows are as `rows_within` says (see
/// `short_text`).
#[verifier::external_body]
fn parse_c_syntax(code: &str) -> (t: Option<SyntaxNode>)
    ensures
        t == c_syntax(code@),
        short_text(code@) ==> (t matches Some(n) ==> rows_within(n, line_feeds(code@))),
{
    let mut parser = tree_sitter::Parser::new();
    parser.set_language(tree_sitter_c::language()).ok()?;
    let tree = parser.parse(code, None)?;
    Some(copy_node(tree.root_node(), None, code))
}

/// Parses with `tree_sitter::Parser` and `tree_sitter_cpp::language()`; the
/// tree depends on `code` alone.
/// For a `short_text`, its rows are as `rows_within` says (see
/// `short_text`).
#[verifier::external_body]
fn parse_cpp_syntax(code: &str) -> (t: Option<SyntaxNode>)
    ensures
        t == cpp_syntax(code@),
        short_text(code@) ==> (t matches Some(n) ==> rows_within(n, line_feeds(code@))),
{
    let mut parser = tree_sitter::Parser::new();
    parser.set_language(tree_sitter_cpp::language()).ok()?;
    let tree = parser.parse(code, None)?;
    Some(copy_node(tree.root_node(), None, code))
}

/// Parses with `tree_sitter::Parser` and `tree_sitter_c_sharp::language()`;
/// the tree depends on `code` alone.
/// For a `short_text`, its rows are as `rows_within` says (see
/// `short_text`).
#[verifier::external_body]
fn parse_csharp_syntax(code: &str) -> (t: Option<SyntaxNode>)
    ensures
        t == csharp_syntax(code@),
        short_text(code@) ==> (t matches Some(n) ==> rows_within(n, line_feeds(code@))),
{
    let mut parser = tree_sitter::Parser::new();
    parser.set_language(tree_sitter_c_sharp::language()).ok()?;
    let tree = parser.parse(code, None)?;
    Some(copy_node(tree.root_node(), None, code))
}

/// Parses with `tree_sitter::Parser` and `tree_sitter_ruby::language()`; the
/// tree depends on `code` alone.
/// For a `short_text`, its rows are as `rows_within` says (see
/// `short_text`).
#[verifier::external_body]
fn parse_ruby_syntax(code: &str) -> (t: Option<SyntaxNode>)
    ensures
        t == ruby_syntax(code@),
        short_text(code@) ==> (t matches Some(n) ==> rows_within(n, line_feeds(code@))),
{
    let mut parser = tree_sitter::Parser::new();
    parser.set_language(tree_sitter_ruby::language()).ok()?;
    let tree = parser.parse(code, None)?;
    Some(copy_node(tree.root_node(), None, code))
}

/// Parses with `tree_sitter::Parser` and `tree_sitter_swift::language()`;
/// the tree depends on `code` alone.
/// For a `short_text`, its rows are as `rows_within` says (see
/// `short_text`).
#[verifier::external_body]
fn parse_swift_syntax(code: &str) -> (t: Option<SyntaxNode>)
    ensures
        t == swift_syntax(code@),
        short_text(code@) ==> (t matches Some(n) ==> rows_within(n, line_feeds(code@))),
{
    let mut parser = tree_sitter::Parser::new();
    parser.set_language(tree_sitter_swift::language()).ok()?;
    let tree = parser.parse(code, None)?;
    Some(copy_node(tree.root_node(), None, code))
}

/// Parses with `tree_sitter::Parser` and `tree_sitter_kotlin::language()`;
/// the tree depends on `code` alone.
/// For a `short_text`, its rows are as `rows_within` says (see
/// `short_text`).
#[verifier::external_body]
fn parse_kotlin_syntax(code: &str) -> (t: Option<SyntaxNode>)
    ensures
        t == kotlin_syntax(code@),
        short_text(code@) ==> (t matches Some(n) ==> rows_within(n, line_feeds(code@))),
{
    let mut parser = tree_sitter::Parser::new();
    parser.set_language(tree_sitter_kotlin::language()).ok()?;
    let tree = parser.parse(code, None)?;
    Some(copy_node(tree.root_node(), None, code))
}

/// Parses with `tree_sitter::Parser` and `tree_sitter_java::language()`;
/// the tree depends on `code` alone.
/// For a `short_text`, its rows are as `rows_within` says (see
/// `short_text`).
#[verifier::external_body]
fn parse_java_syntax(code: &str) -> (t: Option<SyntaxNode>)
    ensures
        t == java_syntax(code@),
        short_text(code@) ==> (t matches Some(n) ==> rows_within(n, line_feeds(code@))),
{
    let mut parser = tree_sitter::Parser::new();
    parser.set_language(tree_sitter_java::language()).ok()?;
    let tree = parser.parse(code, None)?;
    Some(copy_node(tree.root_node(), None, code))
}

/// The syntax tree that the grammar of `g` gives `code`.
pub open spec fn syntax_of(g: Grammar, code: Seq<char>) -> Option<SyntaxNode> {
    match g {
        Grammar::Rust => rust_syntax(code),
        Grammar::TypeScript => typescript_syntax(code),
        Grammar::Python => python_syntax(code),
        Grammar::Go => go_syntax(code),
        Grammar::C => c_syntax(code),
        Grammar::Cpp => cpp_syntax(code),
        Grammar::CSharp => csharp_syntax(code),
        Grammar::Ruby => ruby_syntax(code),
        Grammar::Swift => swift_syntax(code),
        Grammar::Kotlin => kotlin_syntax(code),
        Grammar::Java => java_syntax(code),
    }
}

/// Parses `code` with the grammar of `g`.
pub fn syntax_tree(g: Grammar, code: &str) -> (t: Option<SyntaxNode>)
    ensures
        t == syntax_of(g, code@),
        short_text(code@) ==> (t matches Some(n) ==> rows_within(n, line_feeds(code@))),
{
    match g {
        Grammar::Rust => parse_rust_syntax(code),
        Grammar::TypeScript => parse_typescript_syntax(code),
        Grammar::Python => parse_python_syntax(code),
        Grammar::Go => parse_go_syntax(code),
        Grammar::C => parse_c_syntax(code),
        Grammar::Cpp => parse_cpp_syntax(code),
        Grammar::CSharp => parse_csharp_syntax(code),
        Grammar::Ruby => parse_ruby_syntax(code),
        Grammar::Swift => parse_swift_syntax(code),
        Grammar::Kotlin => parse_kotlin_syntax(code),
        Grammar::Java => parse_java_syntax(code),
    }
}

} // verus!
