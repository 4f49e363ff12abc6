use docs_auditor::auditor::{AuditIssue, AuditIssueType};
use docs_auditor::i18n::{LocaleCatalog, LocaleTable};
use docs_auditor::report::{
    audit_report, diagnostic_plan, issue_type_label, markdown_escaped, scan_issue_type_label, severity,
    ReportEntry, Severity,
};

fn issue(t: AuditIssueType, name: &str, message: &str, line: usize) -> AuditIssue {
    AuditIssue {
        name: name.to_string(),
        issue_type: t,
        message: message.to_string(),
        spec_line: line,
        code_line_range: None,
        expected_line_range: None,
    }
}

fn catalog() -> LocaleCatalog {
    let mut c = LocaleCatalog::new();
    c.add(
        LocaleTable::from_json(
            "en",
            r###"{"report_title": "# Report\n", "report_header": "Header\n", "report_section_title": "## Issues\n"}"###,
        )
        .unwrap(),
    );
    c
}

#[test]
fn severities() {
    assert_eq!(severity(AuditIssueType::MissingInCode), Severity::Error);
    assert_eq!(severity(AuditIssueType::DeadCode), Severity::Warning);
    assert_eq!(severity(AuditIssueType::TypeMismatch), Severity::Warning);
    assert_eq!(severity(AuditIssueType::LineNumberMissing), Severity::Hint);
    assert_eq!(severity(AuditIssueType::LineNumberMismatch), Severity::Hint);
}

#[test]
fn a_diagnostic_spans_its_line() {
    let text = "# Title\n   - fn a() (L1-2)\n";
    let d = diagnostic_plan(&issue(AuditIssueType::TypeMismatch, "a", "msg", 2), text);
    assert_eq!((d.line, d.start_char, d.end_char), (1, 3, 18));
    assert_eq!(d.severity, Severity::Warning);
    assert_eq!(d.message, "msg");
}

#[test]
fn a_diagnostic_counts_bytes() {
    let text = "\u{3000}- fn 名前()";
    let d = diagnostic_plan(&issue(AuditIssueType::MissingInCode, "名前", "m", 1), text);
    assert_eq!((d.line, d.start_char, d.end_char), (0, 3, text.len() as u32));
}

#[test]
fn a_diagnostic_past_the_end_is_empty() {
    let d = diagnostic_plan(&issue(AuditIssueType::DeadCode, "a", "m", 9), "one line");
    assert_eq!((d.line, d.start_char, d.end_char), (8, 0, 0));
    let first = diagnostic_plan(&issue(AuditIssueType::DeadCode, "a", "m", 0), "   ");
    assert_eq!((first.line, first.start_char, first.end_char), (0, 0, 3));
}

#[test]
fn markdown_is_escaped() {
    assert_eq!(markdown_escaped("a_b*c`d[e]<f>\\g"), "a\\_b\\*c\\`d\\[e\\]\\<f\\>\\\\g");
    assert_eq!(markdown_escaped("plain"), "plain");
}

#[test]
fn labels_follow_the_locale() {
    assert_eq!(issue_type_label(AuditIssueType::DeadCode, "ja-JP"), "デッドコード");
    assert_eq!(issue_type_label(AuditIssueType::MissingInCode, "zh-Hant"), "程式碼側未定義");
    assert_eq!(issue_type_label(AuditIssueType::TypeMismatch, "en-GB"), "Type Mismatch");
    assert_eq!(issue_type_label(AuditIssueType::LineNumberMismatch, "fr"), "Incompatibilité de dynamic número de línea");
    assert_eq!(issue_type_label(AuditIssueType::DependencyNotUsed, "fr-CA"), "Dépendance non utilisée");
    assert_eq!(scan_issue_type_label(AuditIssueType::DependencyNotUsed, "fr-CA"), "Définition manquante dans le code");
    assert_eq!(scan_issue_type_label(AuditIssueType::DependencyNotUsed, "de"), "Abhängigkeit nicht verwendet");
}

#[test]
fn no_findings_no_report() {
    assert_eq!(audit_report(&catalog(), "en", &[], false), None);
}

#[test]
fn report_lists_each_finding() {
    let entries = vec![
        ReportEntry {
            relative: "docs/variables'n'functions/[Rust]main.md".to_string(),
            path: "C:\\w\\docs\\[Rust]main.md".to_string(),
            issue: issue(AuditIssueType::MissingInCode, "load_cfg", "Missing: load_cfg", 3),
        },
        ReportEntry {
            relative: "b.md".to_string(),
            path: "/w/b.md".to_string(),
            issue: issue(AuditIssueType::DeadCode, "x", "dead", 12),
        },
    ];
    let report = audit_report(&catalog(), "en", &entries, false).unwrap();
    let expected = "# Report\nHeader\n## Issues\n".to_string()
        + "- [ ] **Missing in Code** (シンボル: `load\\_cfg`)\n  - **内容**: Missing: load\\_cfg\n  - **仕様書箇所**: [docs/variables'n'functions/[Rust]main.md](file:///C:/w/docs/[Rust]main.md) L3\n"
        + "- [ ] **Dead Code** (シンボル: `x`)\n  - **内容**: dead\n  - **仕様書箇所**: [b.md](file:////w/b.md) L12\n";
    assert_eq!(report, expected);
}
