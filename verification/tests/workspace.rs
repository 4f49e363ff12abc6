use docs_auditor::workspace::{
    code_extension_of, code_target_of, in_spec_dir_of, is_skipped_dir_of, language_of_extension_of, normalize_uri,
    spec_target_of, split_file_name_of,
};

fn pair(a: &str, b: &str) -> Option<(String, String)> {
    Some((a.to_string(), b.to_string()))
}

#[test]
fn spec_document_names_its_source() {
    assert_eq!(spec_target_of("[Rust]auditor.md"), pair("rust", "auditor.rs"));
    assert_eq!(spec_target_of("[TypeScript]extension.md"), pair("typescript", "extension.ts"));
    assert_eq!(spec_target_of("[CSharp]Program.md"), pair("csharp", "Program.cs"));
    assert_eq!(spec_target_of("[Java]Main.md"), pair("java", "Main.java"));
    assert_eq!(spec_target_of("[kotlin]a.b.md"), pair("kotlin", "a.b.kt"));
}

#[test]
fn spec_document_of_other_names_pairs_with_nothing() {
    assert_eq!(spec_target_of("[Cobol]legacy.md"), None);
    assert_eq!(spec_target_of("notes.md"), None);
    assert_eq!(spec_target_of("[Rust]main.txt"), None);
    assert_eq!(spec_target_of("[Rust.md"), None);
    assert_eq!(spec_target_of(""), None);
}

#[test]
fn source_names_its_document() {
    assert_eq!(code_target_of("auditor.rs"), pair("rust", "[Rust]auditor.md"));
    assert_eq!(code_target_of("util.h"), pair("c", "[C]util.md"));
    assert_eq!(code_target_of("engine.cxx"), pair("cpp", "[CPP]engine.md"));
    assert_eq!(code_target_of("build.gradle.kts"), pair("kotlin", "[Kotlin]build.gradle.md"));
    assert_eq!(code_target_of("README"), None);
    assert_eq!(code_target_of(".rs"), None);
    assert_eq!(code_target_of("notes.txt"), None);
}

#[test]
fn pairing_round_trip_on_examples() {
    for name in ["main.rs", "app.ts", "lib.py", "x.go", "y.c", "z.cpp", "w.cs", "v.rb", "u.swift", "t.kt", "s.java", "r.js"] {
        let (lang, doc) = code_target_of(name).unwrap();
        let (lang2, source) = spec_target_of(&doc).unwrap();
        assert_eq!(lang, lang2);
        assert_eq!(source, name);
    }
    let (lang, doc) = code_target_of("types.hpp").unwrap();
    assert_eq!(spec_target_of(&doc), Some((lang, "types.cpp".to_string())));
}

#[test]
fn file_names_split_as_paths_do() {
    assert_eq!(split_file_name_of("a.tar.gz"), ("a.tar".to_string(), Some("gz".to_string())));
    assert_eq!(split_file_name_of(".bashrc"), (".bashrc".to_string(), None));
    assert_eq!(split_file_name_of("Makefile"), ("Makefile".to_string(), None));
    assert_eq!(split_file_name_of("end."), ("end".to_string(), Some("".to_string())));
}

#[test]
fn extension_tables() {
    assert_eq!(code_extension_of("swift"), "swift");
    assert_eq!(code_extension_of("Rust"), "");
    assert_eq!(language_of_extension_of("kts"), ("kotlin", "Kotlin"));
    assert_eq!(language_of_extension_of("md"), ("", ""));
}

#[test]
fn drive_letters_are_lowered() {
    assert_eq!(normalize_uri("file:///C:/work/design.md"), "file:///c:/work/design.md");
    assert_eq!(normalize_uri("file:///home/u/design.md"), "file:///home/u/design.md");
}

#[test]
fn uris_are_written_back_by_the_url_parser() {
    assert_eq!(normalize_uri("file:///D:/my docs/a.md"), "file:///d:/my%20docs/a.md");
    assert_eq!(normalize_uri("not a uri"), "not a uri");
}

#[test]
fn documents_live_in_their_directory() {
    assert!(in_spec_dir_of("/w/docs/variables'n'functions/[Rust]main.md"));
    assert!(in_spec_dir_of("C:\\w\\docs\\variables'n'functions\\[Rust]main.md"));
    assert!(!in_spec_dir_of("/w/src/main.rs"));
    assert!(!in_spec_dir_of("/w/docs/other/[Rust]main.md"));
}

#[test]
fn searches_pass_over_some_directories() {
    for d in ["target", "node_modules", "docs", ".git"] {
        assert!(is_skipped_dir_of(d));
    }
    assert!(!is_skipped_dir_of("src"));
    assert!(!is_skipped_dir_of("Docs"));
}
