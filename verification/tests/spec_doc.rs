use docs_auditor::spec_doc::parse_markdown_spec;
use docs_auditor::symbols::SymbolKind;

#[test]
fn test_parse_markdown_spec() {
    let md = r#"# Test Spec
- fn hello(user: String) -> Result (L10-20)
- let timeout: u64 (L30)
- invalid item without fn or let

```mermaid
graph TD
    hello --> parser::parse_markdown_spec
    hello --> Hfsm
```
"#;
    let symbols = parse_markdown_spec(md);
    assert_eq!(symbols.len(), 2);

    // First symbol: a function
    assert_eq!(symbols[0].name, "hello");
    assert_eq!(symbols[0].kind, SymbolKind::Function);
    assert_eq!(symbols[0].params, Some(vec![("user".to_string(), "String".to_string())]));
    assert_eq!(symbols[0].return_type, Some("Result".to_string()));
    assert_eq!(symbols[0].line_range, Some((10, 20)));
    assert_eq!(symbols[0].spec_line, Some(2));
    assert_eq!(symbols[0].dependencies, Some(vec!["parser::parse_markdown_spec".to_string(), "Hfsm".to_string()]));

    // Second symbol: a variable
    assert_eq!(symbols[1].name, "timeout");
    assert_eq!(symbols[1].kind, SymbolKind::Variable);
    assert_eq!(symbols[1].var_type, Some("u64".to_string()));
    assert_eq!(symbols[1].line_range, Some((30, 30)));
    assert_eq!(symbols[1].spec_line, Some(3));
}

#[test]
fn repeated_edges_record_a_dependency_once() {
    let md = "- fn a()\n- fn b()\n```mermaid\ngraph TD\n    a --> b\n    a[Start] --> b\n    a --> c\n```\n";
    let symbols = parse_markdown_spec(md);
    assert_eq!(symbols.len(), 2);
    assert_eq!(symbols[0].dependencies, Some(vec!["b".to_string(), "c".to_string()]));
    assert_eq!(symbols[1].dependencies, None);
}

#[test]
fn edges_outside_diagrams_do_not_count() {
    let md = "- fn a()\na --> b\n";
    let symbols = parse_markdown_spec(md);
    assert_eq!(symbols[0].dependencies, None);
}

#[test]
fn declarations_keep_their_lines() {
    let md = "intro\n\n* let LIMIT: u32\n  - fn run(a: i32, b: String) -> bool (L4)\n";
    let symbols = parse_markdown_spec(md);
    assert_eq!(symbols.len(), 2);
    assert_eq!(symbols[0].spec_line, Some(3));
    assert_eq!(symbols[0].var_type, Some("u32".to_string()));
    assert_eq!(symbols[0].line_range, None);
    assert_eq!(symbols[1].spec_line, Some(4));
    assert_eq!(symbols[1].line_range, Some((4, 4)));
    assert_eq!(symbols[1].params, Some(vec![("a".to_string(), "i32".to_string()), ("b".to_string(), "String".to_string())]));
}

#[test]
fn a_heading_declares_a_symbol() {
    let symbols = parse_markdown_spec("### `login` (L10-20)\n");
    assert_eq!(symbols.len(), 1);
    assert_eq!(symbols[0].name, "login");
    assert_eq!(symbols[0].line_range, Some((10, 20)));
    assert_eq!(symbols[0].spec_line, Some(1));
    assert_eq!(symbols[0].kind, SymbolKind::Variable);
}

#[test]
fn a_heading_with_sections_declares_a_function() {
    let md = "# Spec\n\n### `login` (L10-20)\n- **Parameters**:\n  - `user: String`\n  - `retries: u8`\n- **Return Value**:\n  - `Result`\n\n### `LIMIT`\n- **var_type**: \n  - `u32`\n\n```mermaid\ngraph TD\n    login --> check\n```\n";
    let symbols = parse_markdown_spec(md);
    assert_eq!(symbols.len(), 2);
    assert_eq!(symbols[0].name, "login");
    assert_eq!(symbols[0].kind, SymbolKind::Function);
    assert_eq!(symbols[0].spec_line, Some(3));
    assert_eq!(symbols[0].params, Some(vec![("user".to_string(), "String".to_string()), ("retries".to_string(), "u8".to_string())]));
    assert_eq!(symbols[0].return_type, Some("Result".to_string()));
    assert_eq!(symbols[0].dependencies, Some(vec!["check".to_string()]));
    assert_eq!(symbols[1].name, "LIMIT");
    assert_eq!(symbols[1].kind, SymbolKind::Variable);
    assert_eq!(symbols[1].var_type, Some("u32".to_string()));
    assert_eq!(symbols[1].line_range, None);
}

#[test]
fn japanese_section_names() {
    let md = "### `ログイン` (L1-2)\n- **引数**:\n  - `user: String`\n- **戻り値**:\n  - `bool`\n";
    let symbols = parse_markdown_spec(md);
    assert_eq!(symbols[0].name, "ログイン");
    assert_eq!(symbols[0].kind, SymbolKind::Function);
    assert_eq!(symbols[0].params, Some(vec![("user".to_string(), "String".to_string())]));
    assert_eq!(symbols[0].return_type, Some("bool".to_string()));
}

#[test]
fn other_headings_declare_nothing() {
    assert!(parse_markdown_spec("## `login`\n#### `x`\n### login\n### ``\n").is_empty());
}
