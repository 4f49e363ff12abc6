//! The workspace as the server sees it: which specification document goes
//! with which source file, and the identifiers that the sources use.
use vstd::prelude::*;
use crate::identifiers::has_substring_of;
use crate::spec_doc::{find_char, lemma_find_char, scan_to};
use crate::syntax::has_substring;
use crate::text::{ascii_lower, chars_of, ends_with, lowercase, starts_with, str_is, string_of, to_lowercase};

verus! {

// ---------------------------------------------------------------------------
// Documents and sources

/// A path inside the directory of the specification documents, written with
/// either kind of separator.
pub open spec fn in_spec_dir(path: Seq<char>) -> bool {
    has_substring(path, "docs/variables'n'functions"@) || has_substring(path, "docs\\variables'n'functions"@)
}

pub fn in_spec_dir_of(path: &str) -> (b: bool)
    ensures
        b == in_spec_dir(path@),
{
    let v = chars_of(path);
    has_substring_of(v.as_slice(), "docs/variables'n'functions") || has_substring_of(v.as_slice(), "docs\\variables'n'functions")
}

/// The directories that searches of the workspace pass over: build outputs,
/// packages, the documents and version control.
pub open spec fn is_skipped_dir(name: Seq<char>) -> bool {
    name == "target"@ || name == "node_modules"@ || name == "docs"@ || name == ".git"@
}

pub fn is_skipped_dir_of(name: &str) -> (b: bool)
    ensures
        b == is_skipped_dir(name@),
{
    str_is(name, "target") || str_is(name, "node_modules") || str_is(name, "docs") || str_is(name, ".git")
}

/// The extension of the source files of a language, by its lowercase name;
/// empty for a language the server does not pair.
pub open spec fn code_extension(lang: Seq<char>) -> Seq<char> {
    if lang == "rust"@ {
        "rs"@
    } else if lang == "typescript"@ {
        "ts"@
    } else if lang == "javascript"@ {
        "js"@
    } else if lang == "python"@ {
        "py"@
    } else if lang == "go"@ {
        "go"@
    } else if lang == "c"@ {
        "c"@
    } else if lang == "cpp"@ {
        "cpp"@
    } else if lang == "csharp"@ {
        "cs"@
    } else if lang == "ruby"@ {
        "rb"@
    } else if lang == "swift"@ {
        "swift"@
    } else if lang == "kotlin"@ {
        "kt"@
    } else if lang == "java"@ {
        "java"@
    } else {
        ""@
    }
}

pub fn code_extension_of(lang: &str) -> (e: &'static str)
    ensures
        e@ == code_extension(lang@),
{
    if str_is(lang, "rust") {
        "rs"
    } else if str_is(lang, "typescript") {
        "ts"
    } else if str_is(lang, "javascript") {
        "js"
    } else if str_is(lang, "python") {
        "py"
    } else if str_is(lang, "go") {
        "go"
    } else if str_is(lang, "c") {
        "c"
    } else if str_is(lang, "cpp") {
        "cpp"
    } else if str_is(lang, "csharp") {
        "cs"
    } else if str_is(lang, "ruby") {
        "rb"
    } else if str_is(lang, "swift") {
        "swift"
    } else if str_is(lang, "kotlin") {
        "kt"
    } else if str_is(lang, "java") {
        "java"
    } else {
        ""
    }
}

/// The source file that a specification document `[Lang]name.md` goes with:
/// the language in lowercase, and `name.<extension of Lang>`. `None` for a
/// file of another name, or of a language the server does not pair.
pub open spec fn spec_target(file_name: Seq<char>) -> Option<(Seq<char>, Seq<char>)> {
    let e = find_char(file_name, 0, ']');
    if file_name.len() > 0 && file_name[0] == '[' && e < file_name.len() && ends_with(file_name, ".md"@)
        && e + 4 <= file_name.len() {
        let lang = lowercase(file_name.subrange(1, e));
        let ext = code_extension(lang);
        if ext.len() > 0 {
            Some((lang, file_name.subrange(e + 1, file_name.len() - 3) + "."@ + ext))
        } else {
            None
        }
    } else {
        None
    }
}

/// The source file and the language that a specification document goes
/// with, by the document's file name.
pub fn spec_target_of(file_name: &str) -> (r: Option<(String, String)>)
    ensures
        match r {
            Some((lang, target)) => spec_target(file_name@) == Some((lang@, target@)),
            None => spec_target(file_name@) is None,
        },
{
    let v = chars_of(file_name);
    let n = v.len();
    if n == 0 || v[0] != '[' {
        return None;
    }
    let e = scan_to(v.as_slice(), 0, ']');
    proof {
        lemma_find_char(v@, 0, ']');
        reveal_strlit(".md");
    }
    if e >= n || n < 3 {
        return None;
    }
    let is_md = crate::text::range_eq(v.as_slice(), n - 3, n, ".md");
    if !is_md || n - e < 4 {
        return None;
    }
    let lang_raw = string_of(v.as_slice(), 1, e);
    let lang = to_lowercase(lang_raw.as_str());
    let ext = code_extension_of(lang.as_str());
    if ext.unicode_len() == 0 {
        return None;
    }
    let mut target: Vec<char> = crate::spec_doc::slice_range(v.as_slice(), e + 1, n - 3);
    target.push('.');
    crate::report::push_str(&mut target, ext);
    assert(target@ =~= file_name@.subrange(e + 1, n - 3) + "."@ + ext@) by {
        reveal_strlit(".");
    }
    Some((lang, crate::text::string_of_all(target.as_slice())))
}

/// The stem and the extension of a file name, as `Path::file_stem` and
/// `Path::extension` split it: at the last `.`, unless that `.` begins the
/// name.
pub open spec fn split_file_name(f: Seq<char>) -> (Seq<char>, Option<Seq<char>>) {
    match last_dot(f, f.len() as int) {
        Some(i) => if i > 0 {
            (f.subrange(0, i), Some(f.subrange(i + 1, f.len() as int)))
        } else {
            (f, None)
        },
        None => (f, None),
    }
}

/// The last `.` before `k`.
pub open spec fn last_dot(f: Seq<char>, k: int) -> Option<int>
    decreases k,
{
    if k <= 0 || k > f.len() {
        None
    } else if f[k - 1] == '.' {
        Some(k - 1)
    } else {
        last_dot(f, k - 1)
    }
}

proof fn lemma_last_dot(f: Seq<char>, k: int)
    requires
        0 <= k <= f.len(),
    ensures
        last_dot(f, k) matches Some(i) ==> 0 <= i < k && f[i] == '.',
    decreases k,
{
    if k > 0 && f[k - 1] != '.' {
        lemma_last_dot(f, k - 1);
    }
}

pub fn split_file_name_of(file_name: &str) -> (r: (String, Option<String>))
    ensures
        (r.0@, crate::symbols::opt_string_view(r.1)) == split_file_name(file_name@),
{
    let v = chars_of(file_name);
    let n = v.len();
    let mut k = n;
    while k > 0 && v[k - 1] != '.'
        invariant
            k <= n == v@.len(),
            v@ == file_name@,
            last_dot(v@, n as int) == last_dot(v@, k as int),
        decreases k,
    {
        k = k - 1;
    }
    assert(v@.subrange(0, n as int) == v@);
    if k > 1 {
        (string_of(v.as_slice(), 0, k - 1), Some(string_of(v.as_slice(), k, n)))
    } else {
        (string_of(v.as_slice(), 0, n), None)
    }
}

/// By the extension of a source file: the language that reads it, and the
/// name that its specification documents give that language.
pub open spec fn language_of_extension(ext: Seq<char>) -> (Seq<char>, Seq<char>) {
    if ext == "rs"@ {
        ("rust"@, "Rust"@)
    } else if ext == "ts"@ {
        ("typescript"@, "TypeScript"@)
    } else if ext == "js"@ {
        ("javascript"@, "JavaScript"@)
    } else if ext == "py"@ {
        ("python"@, "Python"@)
    } else if ext == "go"@ {
        ("go"@, "Go"@)
    } else if ext == "c"@ || ext == "h"@ {
        ("c"@, "C"@)
    } else if ext == "cpp"@ || ext == "hpp"@ || ext == "cc"@ || ext == "cxx"@ {
        ("cpp"@, "CPP"@)
    } else if ext == "cs"@ {
        ("csharp"@, "CSharp"@)
    } else if ext == "rb"@ {
        ("ruby"@, "Ruby"@)
    } else if ext == "swift"@ {
        ("swift"@, "Swift"@)
    } else if ext == "kt"@ || ext == "kts"@ {
        ("kotlin"@, "Kotlin"@)
    } else if ext == "java"@ {
        ("java"@, "Java"@)
    } else {
        (""@, ""@)
    }
}

pub fn language_of_extension_of(ext: &str) -> (r: (&'static str, &'static str))
    ensures
        (r.0@, r.1@) == language_of_extension(ext@),
{
    if str_is(ext, "rs") {
        ("rust", "Rust")
    } else if str_is(ext, "ts") {
        ("typescript", "TypeScript")
    } else if str_is(ext, "js") {
        ("javascript", "JavaScript")
    } else if str_is(ext, "py") {
        ("python", "Python")
    } else if str_is(ext, "go") {
        ("go", "Go")
    } else if str_is(ext, "c") || str_is(ext, "h") {
        ("c", "C")
    } else if str_is(ext, "cpp") || str_is(ext, "hpp") || str_is(ext, "cc") || str_is(ext, "cxx") {
        ("cpp", "CPP")
    } else if str_is(ext, "cs") {
        ("csharp", "CSharp")
    } else if str_is(ext, "rb") {
        ("ruby", "Ruby")
    } else if str_is(ext, "swift") {
        ("swift", "Swift")
    } else if str_is(ext, "kt") || str_is(ext, "kts") {
        ("kotlin", "Kotlin")
    } else if str_is(ext, "java") {
        ("java", "Java")
    } else {
        ("", "")
    }
}

/// The specification document that a source file goes with: the language
/// that reads the source, and the document's name `[Lang]stem.md`. `None`
/// for a file of an extension the server does not pair.
pub open spec fn code_target(file_name: Seq<char>) -> Option<(Seq<char>, Seq<char>)> {
    let (stem, ext) = split_file_name(file_name);
    let (lang, prefix) = language_of_extension(
        match ext {
            Some(e) => e,
            None => ""@,
        },
    );
    if prefix.len() > 0 {
        Some((lang, "["@ + prefix + "]"@ + stem + ".md"@))
    } else {
        None
    }
}

pub fn code_target_of(file_name: &str) -> (r: Option<(String, String)>)
    ensures
        match r {
            Some((lang, doc)) => code_target(file_name@) == Some((lang@, doc@)),
            None => code_target(file_name@) is None,
        },
{
    let (stem, ext) = split_file_name_of(file_name);
    let (lang, prefix) = match &ext {
        Some(e) => language_of_extension_of(e.as_str()),
        None => language_of_extension_of(""),
    };
    if prefix.unicode_len() == 0 {
        return None;
    }
    let mut doc: Vec<char> = Vec::new();
    doc.push('[');
    crate::report::push_str(&mut doc, prefix);
    doc.push(']');
    crate::report::push_str(&mut doc, stem.as_str());
    crate::report::push_str(&mut doc, ".md");
    assert(doc@ =~= "["@ + prefix@ + "]"@ + stem@ + ".md"@) by {
        reveal_strlit("[");
        reveal_strlit("]");
    }
    Some((String::from_str(lang), crate::text::string_of_all(doc.as_slice())))
}

} // verus!

verus! {

// ---------------------------------------------------------------------------
// The pairing, both ways

proof fn lemma_find_first(s: Seq<char>, i: int, j: int, ch: char)
    requires
        0 <= i <= j < s.len(),
        s[j] == ch,
        forall|k: int| i <= k < j ==> s[k] != ch,
    ensures
        find_char(s, i, ch) == j,
    decreases j - i,
{
    if i < j {
        lemma_find_first(s, i + 1, j, ch);
    }
}

/// The document `[prefix]stem.md` goes with `stem.<extension>` of the
/// language that `prefix` names in lowercase.
proof fn lemma_doc_target(prefix: Seq<char>, lang: Seq<char>, stem: Seq<char>)
    requires
        forall|k: int| 0 <= k < prefix.len() ==> prefix[k] != ']',
        lowercase(prefix) == lang,
        code_extension(lang).len() > 0,
    ensures
        spec_target("["@ + prefix + "]"@ + stem + ".md"@) == Some((lang, stem + "."@ + code_extension(lang))),
{
    reveal_strlit("[");
    reveal_strlit("]");
    reveal_strlit(".md");
    let doc = "["@ + prefix + "]"@ + stem + ".md"@;
    let e: int = prefix.len() as int + 1;
    assert forall|k: int| 0 <= k < e implies doc[k] != ']' by {
        if k > 0 {
            assert(doc[k] == prefix[k - 1]);
        }
    }
    lemma_find_first(doc, 0, e, ']');
    assert(doc.subrange(1, e) =~= prefix);
    assert(doc.subrange(e + 1, doc.len() - 3) =~= stem);
    assert(doc.subrange(doc.len() - 3, doc.len() as int) =~= ".md"@);
}

/// Law: a source file and the document it names find each other. The
/// document of a source file names a source of the same language, with
/// the same stem and that language's own extension; that is the source file
/// itself where its extension is that one.
pub proof fn lemma_pairing_round_trip(file_name: Seq<char>)
    ensures
        code_target(file_name) matches Some((lang, doc)) ==> {
            &&& spec_target(doc) == Some((lang, split_file_name(file_name).0 + "."@ + code_extension(lang)))
            &&& split_file_name(file_name).1 == Some(code_extension(lang)) ==> spec_target(doc) == Some((lang, file_name))
        },
{
    let (stem, ext) = split_file_name(file_name);
    let e = match ext {
        Some(x) => x,
        None => ""@,
    };
    let (lang, prefix) = language_of_extension(e);
    reveal_strlit("");
    reveal_strlit("rust");
    reveal_strlit("typescript");
    reveal_strlit("javascript");
    reveal_strlit("python");
    reveal_strlit("go");
    reveal_strlit("c");
    reveal_strlit("cpp");
    reveal_strlit("csharp");
    reveal_strlit("ruby");
    reveal_strlit("swift");
    reveal_strlit("kotlin");
    reveal_strlit("java");
    if e == "rs"@ {
        reveal_strlit("Rust");
        reveal_strlit("rs");
        assert(lowercase("Rust"@) =~= "rust"@);
        lemma_doc_target("Rust"@, "rust"@, stem);
    } else if e == "ts"@ {
        reveal_strlit("TypeScript");
        reveal_strlit("ts");
        assert(lowercase("TypeScript"@) =~= "typescript"@);
        lemma_doc_target("TypeScript"@, "typescript"@, stem);
    } else if e == "js"@ {
        reveal_strlit("JavaScript");
        reveal_strlit("js");
        assert(lowercase("JavaScript"@) =~= "javascript"@);
        assert("javascript"@[0] != "typescript"@[0]);
        lemma_doc_target("JavaScript"@, "javascript"@, stem);
    } else if e == "py"@ {
        reveal_strlit("Python");
        reveal_strlit("py");
        assert(lowercase("Python"@) =~= "python"@);
        lemma_doc_target("Python"@, "python"@, stem);
    } else if e == "go"@ {
        reveal_strlit("Go");
        reveal_strlit("go");
        assert(lowercase("Go"@) =~= "go"@);
        lemma_doc_target("Go"@, "go"@, stem);
    } else if e == "c"@ || e == "h"@ {
        reveal_strlit("C");
        reveal_strlit("c");
        assert(lowercase("C"@) =~= "c"@);
        lemma_doc_target("C"@, "c"@, stem);
    } else if e == "cpp"@ || e == "hpp"@ || e == "cc"@ || e == "cxx"@ {
        reveal_strlit("CPP");
        reveal_strlit("cpp");
        assert(lowercase("CPP"@) =~= "cpp"@);
        lemma_doc_target("CPP"@, "cpp"@, stem);
    } else if e == "cs"@ {
        reveal_strlit("CSharp");
        reveal_strlit("cs");
        assert(lowercase("CSharp"@) =~= "csharp"@);
        assert("csharp"@[0] != "python"@[0]);
        lemma_doc_target("CSharp"@, "csharp"@, stem);
    } else if e == "rb"@ {
        reveal_strlit("Ruby");
        reveal_strlit("rb");
        assert(lowercase("Ruby"@) =~= "ruby"@);
        assert("ruby"@[2] != "rust"@[2]);
        lemma_doc_target("Ruby"@, "ruby"@, stem);
    } else if e == "swift"@ {
        reveal_strlit("Swift");
        reveal_strlit("swift");
        assert(lowercase("Swift"@) =~= "swift"@);
        lemma_doc_target("Swift"@, "swift"@, stem);
    } else if e == "kt"@ || e == "kts"@ {
        reveal_strlit("Kotlin");
        reveal_strlit("kt");
        assert(lowercase("Kotlin"@) =~= "kotlin"@);
        assert("kotlin"@[0] != "python"@[0]);
        assert("kotlin"@[0] != "csharp"@[0]);
        lemma_doc_target("Kotlin"@, "kotlin"@, stem);
    } else if e == "java"@ {
        reveal_strlit("Java");
        reveal_strlit("java");
        assert(lowercase("Java"@) =~= "java"@);
        assert("java"@[0] != "rust"@[0]);
        assert("java"@[0] != "ruby"@[0]);
        lemma_doc_target("Java"@, "java"@, stem);
    }
    if prefix.len() > 0 && ext == Some(code_extension(lang)) {
        lemma_last_dot(file_name, file_name.len() as int);
        reveal_strlit(".");
        assert(stem + "."@ + code_extension(lang) =~= file_name);
    }
}

// ---------------------------------------------------------------------------
// File URIs

/// A `file:///` URI whose drive letter is a capital, as `file:///C:/..`,
/// with that letter lowered; any other text as it is.
pub open spec fn lower_drive(s: Seq<char>) -> Seq<char> {
    if s.len() >= 10 && starts_with(s, "file:///"@) && 'A' <= s[8] && s[8] <= 'Z' && s[9] == ':' {
        s.update(8, ascii_lower(s[8]))
    } else {
        s
    }
}

/// What `url::Url::parse` makes of a text, written back by `Url::as_str`;
/// `None` where the text is no URL.
pub uninterp spec fn url_serialization(s: Seq<char>) -> Option<Seq<char>>;

/// Parses `s` with `url::Url::parse` and writes the URL back with
/// `Url::as_str`; `None` where parsing fails. The result depends on `s`
/// alone.
#[verifier::external_body]
fn reparse_url(s: &str) -> (r: Option<String>)
    ensures
        crate::symbols::opt_string_view(r) == url_serialization(s@),
{
    match url::Url::parse(s) {
        Ok(u) => Some(u.as_str().to_string()),
        Err(_) => None,
    }
}

/// The URI under which the diagnostics of a document are published: its
/// drive letter lowered, as the URL parser writes it back; the URI as it
/// came where the parser refuses it.
pub open spec fn normalized_uri(uri: Seq<char>) -> Seq<char> {
    match url_serialization(lower_drive(uri)) {
        Some(t) => t,
        None => uri,
    }
}

pub fn normalize_uri(uri: &str) -> (r: String)
    ensures
        r@ == normalized_uri(uri@),
{
    let mut v = chars_of(uri);
    let n = v.len();
    proof { reveal_strlit("file:///"); }
    assert(v@.subrange(0, n as int) == v@);
    if n >= 10 && crate::text::range_starts_with(v.as_slice(), 0, n, "file:///") && 'A' <= v[8] && v[8] <= 'Z'
        && v[9] == ':' {
        let c = v[8];
        let lower = ((c as u8) + 32u8) as char;
        assert(lower == ascii_lower(c));
        v.set(8, lower);
    }
    assert(v@ == lower_drive(uri@));
    let lowered = crate::text::string_of_all(v.as_slice());
    match reparse_url(lowered.as_str()) {
        Some(t) => t,
        None => String::from_str(uri),
    }
}

} // verus!
