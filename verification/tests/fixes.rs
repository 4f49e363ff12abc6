use docs_auditor::auditor::{AuditIssue, AuditIssueType};
use docs_auditor::fixes::{fix_document, has_line_issues, inject_line_range, line_number_edit};
use docs_auditor::i18n::{LocaleCatalog, LocaleTable};
use docs_auditor::spec_doc::parse_markdown_spec;

fn issue(t: AuditIssueType, line: usize, range: Option<(usize, usize)>) -> AuditIssue {
    AuditIssue {
        name: "f".to_string(),
        issue_type: t,
        message: "m".to_string(),
        spec_line: line,
        code_line_range: range,
        expected_line_range: None,
    }
}

fn catalog() -> LocaleCatalog {
    let mut c = LocaleCatalog::new();
    c.add(LocaleTable::from_json("en", r#"{"code_action_title": "Set line numbers to {0}"}"#).unwrap());
    c.add(LocaleTable::from_json("ja", r#"{"code_action_title": "行番号を {0} に更新"}"#).unwrap());
    c
}

#[test]
fn injection_replaces_an_old_range() {
    assert_eq!(inject_line_range("- fn login(user: String) (L1-2)", (10, 20)), "- fn login(user: String) (L10-20)");
    assert_eq!(inject_line_range("- let LIMIT: u32 (L7)  ", (3, 3)), "- let LIMIT: u32 (L3-3)");
    assert_eq!(inject_line_range("- fn a()   (L5-6)\t", (1, 9)), "- fn a() (L1-9)");
}

#[test]
fn injection_adds_a_missing_range() {
    assert_eq!(inject_line_range("- fn logout()", (5, 8)), "- fn logout() (L5-8)");
    assert_eq!(inject_line_range("- fn logout()   ", (5, 8)), "- fn logout() (L5-8)");
    assert_eq!(inject_line_range("", (1, 2)), " (L1-2)");
}

#[test]
fn injection_keeps_text_that_only_looks_like_a_range() {
    assert_eq!(inject_line_range("- fn a() (Lx)", (1, 2)), "- fn a() (Lx) (L1-2)");
    assert_eq!(inject_line_range("- fn a() (L1-2) tail", (3, 4)), "- fn a() (L1-2) tail (L3-4)");
}

#[test]
fn injecting_twice_leaves_the_second_range() {
    let line = "  * fn parse(input: &str) -> Ast (L4-9)";
    let once = inject_line_range(line, (11, 12));
    let twice = inject_line_range(&once, (20, 30));
    assert_eq!(twice, inject_line_range(line, (20, 30)));
}

#[test]
fn an_injected_range_reads_back() {
    let line = inject_line_range("- fn login(user: String) -> Result (L1-2)", (42, 57));
    let symbols = parse_markdown_spec(&line);
    assert_eq!(symbols.len(), 1);
    assert_eq!(symbols[0].name, "login");
    assert_eq!(symbols[0].line_range, Some((42, 57)));
}

#[test]
fn documents_get_every_fix() {
    let text = "# Spec\n- fn a()\n- fn b() (L1-1)\r\n- fn c()\n";
    let issues = vec![
        issue(AuditIssueType::LineNumberMissing, 2, Some((3, 4))),
        issue(AuditIssueType::LineNumberMismatch, 3, Some((7, 9))),
        issue(AuditIssueType::LineNumberMissing, 4, None),
        issue(AuditIssueType::TypeMismatch, 1, Some((1, 1))),
        issue(AuditIssueType::LineNumberMissing, 99, Some((1, 1))),
    ];
    assert_eq!(fix_document(text, &issues), "# Spec\n- fn a() (L3-4)\n- fn b() (L7-9)\n- fn c()");
}

#[test]
fn line_zero_fixes_the_first_line() {
    let issues = vec![issue(AuditIssueType::LineNumberMissing, 0, Some((2, 3)))];
    assert_eq!(fix_document("- let x: u8\n- let y: u8", &issues), "- let x: u8 (L2-3)\n- let y: u8");
}

#[test]
fn line_issues_are_found() {
    assert!(!has_line_issues(&[]));
    assert!(!has_line_issues(&[issue(AuditIssueType::DeadCode, 1, None)]));
    assert!(has_line_issues(&[issue(AuditIssueType::DeadCode, 1, None), issue(AuditIssueType::LineNumberMismatch, 2, None)]));
}

#[test]
fn quick_fix_rewrites_the_line() {
    let content = "intro\n- fn login(user: String) (L1-2)\n";
    let edit = line_number_edit(&catalog(), "en-US", content, AuditIssueType::LineNumberMismatch, Some((10, 20)), 1).unwrap();
    assert_eq!(edit.line, 1);
    assert_eq!(edit.end_char, 31);
    assert_eq!(edit.new_text, "- fn login(user: String) (L10-20)");
    assert_eq!(edit.title, "Set line numbers to L10-20");
    let ja = line_number_edit(&catalog(), "ja-JP", content, AuditIssueType::LineNumberMissing, Some((1, 2)), 1).unwrap();
    assert_eq!(ja.title, "行番号を L1-2 に更新");
}

#[test]
fn quick_fix_only_for_line_numbers() {
    let content = "- fn a()\n";
    assert!(line_number_edit(&catalog(), "en", content, AuditIssueType::DeadCode, Some((1, 2)), 0).is_none());
    assert!(line_number_edit(&catalog(), "en", content, AuditIssueType::LineNumberMissing, None, 0).is_none());
    assert!(line_number_edit(&catalog(), "en", content, AuditIssueType::LineNumberMissing, Some((1, 2)), 5).is_none());
}

#[test]
fn quick_fix_counts_bytes() {
    let content = "- fn 名前()";
    let edit = line_number_edit(&catalog(), "en", content, AuditIssueType::LineNumberMissing, Some((1, 2)), 0).unwrap();
    assert_eq!(edit.end_char as usize, content.len());
}

#[test]
fn a_heading_gets_its_range_and_reads_back() {
    let line = inject_line_range("### `login`", (10, 20));
    assert_eq!(line, "### `login` (L10-20)");
    let symbols = parse_markdown_spec(&format!("{line}\n"));
    assert_eq!(symbols.len(), 1);
    assert_eq!(symbols[0].name, "login");
    assert_eq!(symbols[0].line_range, Some((10, 20)));
    assert_eq!(symbols[0].spec_line, Some(1));
    assert_eq!(inject_line_range("### `login` (L1-2)", (3, 4)), "### `login` (L3-4)");
}
