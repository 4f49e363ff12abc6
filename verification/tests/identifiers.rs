use docs_auditor::identifiers::{add_file_identifiers, add_word_tokens, is_source_extension_of, IdentifierSet};

fn sorted(set: &IdentifierSet) -> Vec<String> {
    let mut v: Vec<String> = set.as_slice().to_vec();
    v.sort();
    v
}

#[test]
fn words_that_can_be_identifiers() {
    let mut set = IdentifierSet::new();
    add_word_tokens(&mut set, "let x1 = foo(2bar, _baz) + x1; über");
    assert_eq!(sorted(&set), vec!["_baz", "foo", "let", "x1"]);
}

#[test]
fn each_identifier_once() {
    let mut set = IdentifierSet::new();
    add_word_tokens(&mut set, "a a a b");
    add_word_tokens(&mut set, "b c");
    assert_eq!(sorted(&set), vec!["a", "b", "c"]);
    assert!(set.contains("c"));
    assert!(!set.contains("d"));
}

#[test]
fn rust_sources_are_read_through_their_tree() {
    let mut set = IdentifierSet::new();
    add_file_identifiers(&mut set, "rs", "fn helper() { std::mem::drop(value.field); }");
    let got = sorted(&set);
    assert!(!got.contains(&"helper".to_string()));
    for w in ["std", "mem", "drop", "std::mem::drop", "value", "field"] {
        assert!(got.contains(&w.to_string()), "{} missing from {:?}", w, got);
    }
}

#[test]
fn other_sources_are_read_as_words() {
    let mut set = IdentifierSet::new();
    add_file_identifiers(&mut set, "py", "def run(): return 1");
    assert_eq!(sorted(&set), vec!["def", "return"]);
    add_file_identifiers(&mut set, "md", "ignored words");
    assert_eq!(sorted(&set), vec!["def", "return"]);
}

#[test]
fn source_extensions() {
    for e in ["rs", "ts", "js", "py", "go", "c", "h", "cpp", "hpp", "cc", "cxx", "cs", "rb", "swift", "kt", "kts", "java"] {
        assert!(is_source_extension_of(e));
    }
    assert!(!is_source_extension_of("md"));
    assert!(!is_source_extension_of("RS"));
}

#[test]
fn a_definition_alone_is_no_use() {
    let mut set = IdentifierSet::new();
    add_file_identifiers(&mut set, "py", "def unused_func():\n    pass\n");
    assert!(!set.contains("unused_func"));
    assert!(set.contains("pass"));
}

#[test]
fn a_definition_that_is_called_is_used() {
    let mut set = IdentifierSet::new();
    add_file_identifiers(&mut set, "py", "def helper():\n    pass\nhelper()\n");
    assert!(set.contains("helper"));
    let mut java = IdentifierSet::new();
    add_file_identifiers(&mut java, "java", "class A { int f() { return 1; } int g() { return f(); } }");
    assert!(java.contains("f"));
    assert!(!java.contains("g"));
    assert!(java.contains("A"));
}
