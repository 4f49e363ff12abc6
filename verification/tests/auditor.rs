use docs_auditor::auditor::{audit_symbols, AuditIssueType};
use docs_auditor::i18n::{LocaleCatalog, LocaleTable};
use docs_auditor::symbols::{SymbolInfo, SymbolKind};

fn make_used_set(names: &[&str]) -> Vec<String> {
    names.iter().map(|s| s.to_string()).collect()
}

fn catalog() -> LocaleCatalog {
    let mut c = LocaleCatalog::new();
    c.add(LocaleTable::from_json("en", r#"{"missing_in_code": "Missing: {0}"}"#).unwrap());
    c
}

#[test]
fn test_audit_symbols_success() {
    let spec = vec![
        SymbolInfo {
            name: "login".to_string(),
            kind: SymbolKind::Function,
            params: Some(vec![("user".to_string(), "String".to_string())]),
            return_type: Some("Result".to_string()),
            var_type: None,
            line_range: Some((10, 20)),
            spec_line: Some(2),
            dependencies: None,
            used_symbols: None,
        }
    ];
    let code = vec![
        SymbolInfo {
            name: "login".to_string(),
            kind: SymbolKind::Function,
            params: Some(vec![("user".to_string(), "String".to_string())]),
            return_type: Some("Result".to_string()),
            var_type: None,
            line_range: Some((10, 20)),
            spec_line: None,
            dependencies: None,
            used_symbols: None,
        }
    ];

    let project_used = make_used_set(&["login"]);
    let issues = audit_symbols(&spec, &code, &project_used, "ja", &catalog());
    assert!(issues.is_empty());
}

#[test]
fn test_audit_symbols_missing_in_code() {
    let spec = vec![
        SymbolInfo {
            name: "logout".to_string(),
            kind: SymbolKind::Function,
            params: None,
            return_type: None,
            var_type: None,
            line_range: None,
            spec_line: Some(5),
            dependencies: None,
            used_symbols: None,
        }
    ];
    let code: Vec<SymbolInfo> = vec![];

    let project_used: Vec<String> = Vec::new();
    let issues = audit_symbols(&spec, &code, &project_used, "ja", &catalog());
    assert_eq!(issues.len(), 1);
    assert_eq!(issues[0].issue_type, AuditIssueType::MissingInCode);
    assert_eq!(issues[0].spec_line, 5);
}

#[test]
fn test_audit_symbols_type_mismatch() {
    let spec = vec![
        SymbolInfo {
            name: "timeout".to_string(),
            kind: SymbolKind::Variable,
            params: None,
            return_type: None,
            var_type: Some("u64".to_string()),
            line_range: Some((30, 30)),
            spec_line: Some(10),
            dependencies: None,
            used_symbols: None,
        }
    ];
    let code = vec![
        SymbolInfo {
            name: "timeout".to_string(),
            kind: SymbolKind::Variable,
            params: None,
            return_type: None,
            var_type: Some("u32".to_string()),
            line_range: Some((30, 30)),
            spec_line: None,
            dependencies: None,
            used_symbols: None,
        }
    ];

    let project_used = make_used_set(&["timeout"]);
    let issues = audit_symbols(&spec, &code, &project_used, "ja", &catalog());
    assert_eq!(issues.len(), 1);
    assert_eq!(issues[0].issue_type, AuditIssueType::TypeMismatch);
    assert_eq!(issues[0].spec_line, 10);
}

#[test]
fn test_audit_symbols_line_mismatch() {
    let spec = vec![
        SymbolInfo {
            name: "login".to_string(),
            kind: SymbolKind::Function,
            params: None,
            return_type: None,
            var_type: None,
            line_range: Some((10, 20)),
            spec_line: Some(4),
            dependencies: None,
            used_symbols: None,
        }
    ];
    let code = vec![
        SymbolInfo {
            name: "login".to_string(),
            kind: SymbolKind::Function,
            params: None,
            return_type: None,
            var_type: None,
            line_range: Some((15, 25)),
            spec_line: None,
            dependencies: None,
            used_symbols: None,
        }
    ];

    let project_used = make_used_set(&["login"]);
    let issues = audit_symbols(&spec, &code, &project_used, "ja", &catalog());
    assert_eq!(issues.len(), 1);
    assert_eq!(issues[0].issue_type, AuditIssueType::LineNumberMismatch);
    assert_eq!(issues[0].spec_line, 4);
}

#[test]
fn test_audit_symbols_dependency_success() {
    let spec = vec![
        SymbolInfo {
            name: "on_change".to_string(),
            kind: SymbolKind::Function,
            params: None,
            return_type: None,
            var_type: None,
            line_range: Some((1, 10)),
            spec_line: Some(5),
            dependencies: Some(vec!["parser::parse_markdown_spec".to_string()]),
            used_symbols: None,
        }
    ];
    let code = vec![
        SymbolInfo {
            name: "on_change".to_string(),
            kind: SymbolKind::Function,
            params: None,
            return_type: None,
            var_type: None,
            line_range: Some((1, 10)),
            spec_line: None,
            dependencies: None,
            used_symbols: Some(vec!["parse_markdown_spec".to_string()]),
        }
    ];

    let project_used = make_used_set(&["on_change"]);
    let issues = audit_symbols(&spec, &code, &project_used, "ja", &catalog());
    assert!(issues.is_empty());
}

#[test]
fn test_audit_symbols_dependency_failed() {
    let spec = vec![
        SymbolInfo {
            name: "on_change".to_string(),
            kind: SymbolKind::Function,
            params: None,
            return_type: None,
            var_type: None,
            line_range: Some((1, 10)),
            spec_line: Some(5),
            dependencies: Some(vec!["parser::parse_markdown_spec".to_string()]),
            used_symbols: None,
        }
    ];
    let code = vec![
        SymbolInfo {
            name: "on_change".to_string(),
            kind: SymbolKind::Function,
            params: None,
            return_type: None,
            var_type: None,
            line_range: Some((1, 10)),
            spec_line: None,
            dependencies: None,
            used_symbols: Some(vec!["another_function".to_string()]),
        }
    ];

    let project_used = make_used_set(&["on_change"]);
    let issues = audit_symbols(&spec, &code, &project_used, "ja", &catalog());
    assert_eq!(issues.len(), 1);
    assert_eq!(issues[0].issue_type, AuditIssueType::DependencyNotUsed);
    assert_eq!(issues[0].spec_line, 5);
}

#[test]
fn test_audit_symbols_dead_code() {
    let spec = vec![
        SymbolInfo {
            name: "unused_func".to_string(),
            kind: SymbolKind::Function,
            params: None,
            return_type: None,
            var_type: None,
            line_range: Some((1, 10)),
            spec_line: Some(3),
            dependencies: None,
            used_symbols: None,
        }
    ];
    let code = vec![
        SymbolInfo {
            name: "unused_func".to_string(),
            kind: SymbolKind::Function,
            params: None,
            return_type: None,
            var_type: None,
            line_range: Some((1, 10)),
            spec_line: None,
            dependencies: None,
            used_symbols: None,
        }
    ];

    let project_used: Vec<String> = Vec::new();
    let issues = audit_symbols(&spec, &code, &project_used, "ja", &catalog());
    assert_eq!(issues.len(), 1);
    assert_eq!(issues[0].issue_type, AuditIssueType::DeadCode);
    assert_eq!(issues[0].spec_line, 3);
}

fn function(name: &str, line: Option<usize>, range: Option<(usize, usize)>) -> SymbolInfo {
    SymbolInfo {
        name: name.to_string(),
        kind: SymbolKind::Function,
        params: None,
        return_type: None,
        var_type: None,
        line_range: range,
        spec_line: line,
        dependencies: None,
        used_symbols: None,
    }
}

#[test]
fn findings_keep_the_order_of_the_declarations() {
    let spec = vec![
        function("a", Some(2), Some((4, 6))),
        function("b", Some(5), None),
        function("c", Some(9), Some((1, 3))),
    ];
    let code = vec![function("c", None, Some((1, 3))), function("a", None, Some((4, 6)))];
    let issues = audit_symbols(&spec, &code, &Vec::new(), "en", &catalog());
    let lines: Vec<usize> = issues.iter().map(|i| i.spec_line).collect();
    assert_eq!(lines, vec![2, 5, 9]);
    assert_eq!(issues[1].issue_type, AuditIssueType::MissingInCode);
}

#[test]
fn more_used_names_only_remove_dead_code() {
    let spec = vec![
        function("a", Some(1), Some((1, 1))),
        function("b", Some(2), Some((2, 2))),
        function("c", Some(3), None),
    ];
    let code = vec![function("a", None, Some((1, 1))), function("b", None, Some((2, 2)))];
    let few = audit_symbols(&spec, &code, &make_used_set(&["a"]), "en", &catalog());
    let more = audit_symbols(&spec, &code, &make_used_set(&["a", "b"]), "en", &catalog());
    let kinds = |v: &[docs_auditor::auditor::AuditIssue]| {
        v.iter().map(|i| (i.name.clone(), i.issue_type.clone())).collect::<Vec<_>>()
    };
    assert_eq!(
        kinds(&few),
        vec![
            ("b".to_string(), AuditIssueType::DeadCode),
            ("c".to_string(), AuditIssueType::MissingInCode)
        ]
    );
    assert_eq!(kinds(&more), vec![("c".to_string(), AuditIssueType::MissingInCode)]);
}

#[test]
fn dead_code_only_for_the_first_definition_of_the_same_kind() {
    let spec = vec![function("f", Some(4), Some((7, 8)))];
    let mut variable = function("f", None, Some((1, 1)));
    variable.kind = SymbolKind::Variable;
    let code = vec![variable, function("f", None, Some((7, 8)))];
    let issues = audit_symbols(&spec, &code, &Vec::new(), "en", &catalog());
    assert_eq!(issues.len(), 1);
    assert_eq!(issues[0].issue_type, AuditIssueType::TypeMismatch);

    let code = vec![function("f", None, Some((7, 8)))];
    let issues = audit_symbols(&spec, &code, &Vec::new(), "en", &catalog());
    assert_eq!(issues.len(), 1);
    assert_eq!(issues[0].issue_type, AuditIssueType::DeadCode);
    assert_eq!(issues[0].code_line_range, Some((7, 8)));
    assert_eq!(issues[0].expected_line_range, None);
}
