//! What the server shows of an audit: a diagnostic for each finding, and
//! the Markdown report of every finding in the workspace.
use vstd::prelude::*;
use crate::auditor::{AuditIssue, AuditIssueType, IssueView};
use crate::i18n::{decimal, get_message, has_english, catalog_view, language_of_locale, message_text, push_decimal, resolve_language, LocaleCatalog, MessageKey};
use crate::scan::{lines_of, line_bounds};
use crate::text::{chars_of, is_white_space, is_white_space_char, str_is, string_of, string_of_all};

verus! {

// ---------------------------------------------------------------------------
// Diagnostics

/// How strongly the editor marks a finding.
#[derive(Debug, Clone, Copy, PartialEq, Eq, Structural)]
pub enum Severity {
    Error,
    Warning,
    Hint,
}

/// A missing definition is an error, a finding about line numbers a hint,
/// every other finding a warning.
pub open spec fn severity_of(t: AuditIssueType) -> Severity {
    match t {
        AuditIssueType::MissingInCode => Severity::Error,
        AuditIssueType::LineNumberMissing | AuditIssueType::LineNumberMismatch => Severity::Hint,
        _ => Severity::Warning,
    }
}

pub fn severity(t: AuditIssueType) -> (s: Severity)
    ensures
        s == severity_of(t),
        (s == Severity::Error) <==> (t == AuditIssueType::MissingInCode),
        (s == Severity::Hint) <==> (t == AuditIssueType::LineNumberMissing || t == AuditIssueType::LineNumberMismatch),
{
    match t {
        AuditIssueType::MissingInCode => Severity::Error,
        AuditIssueType::LineNumberMissing | AuditIssueType::LineNumberMismatch => Severity::Hint,
        _ => Severity::Warning,
    }
}

/// The number of bytes of the UTF-8 encoding of `s`, which `str::len` gives.
pub open spec fn byte_len(s: Seq<char>) -> nat {
    vstd::utf8::encode_utf8(s).len()
}

/// The first character of `s`, from `i` on, that is no whitespace.
pub open spec fn first_non_space(s: Seq<char>, i: int) -> Option<int>
    decreases s.len() - i,
{
    if i < 0 || i >= s.len() {
        None
    } else if !is_white_space(s[i]) {
        Some(i)
    } else {
        first_non_space(s, i + 1)
    }
}

/// The line of the document, counted from 0, that a finding about line
/// `spec_line` (counted from 1) marks.
pub open spec fn marked_line(spec_line: usize) -> u32 {
    (if spec_line > 0 { spec_line - 1 } else { 0 }) as u32
}

/// Line `k` of `text`, or nothing where the text has no such line.
pub open spec fn nth_line(text: Seq<char>, k: int) -> Seq<char> {
    if 0 <= k < lines_of(text).len() {
        lines_of(text)[k]
    } else {
        seq![]
    }
}

/// Where a diagnostic stands and what it says.
pub struct DiagnosticPlan {
    /// The line, counted from 0.
    pub line: u32,
    /// The byte offset of the first character that is no whitespace.
    pub start_char: u32,
    /// The byte length of the line.
    pub end_char: u32,
    pub severity: Severity,
    pub message: String,
}

/// The diagnostic of finding `i` in the document `text`: on the line it
/// names, from its first character that is no whitespace to its end.
pub open spec fn planned(i: IssueView, text: Seq<char>) -> (u32, u32, u32, Severity, Seq<char>) {
    let k = marked_line(i.spec_line);
    let line = nth_line(text, k as int);
    let start: u32 = match first_non_space(line, 0) {
        Some(p) => (byte_len(line.take(p)) as usize) as u32,
        None => 0,
    };
    (k, start, (byte_len(line) as usize) as u32, severity_of(i.issue_type), i.message)
}

pub fn diagnostic_plan(issue: &AuditIssue, text: &str) -> (d: DiagnosticPlan)
    ensures
        (d.line, d.start_char, d.end_char, d.severity, d.message@) == planned(issue@, text@),
{
    let k: u32 = if issue.spec_line > 0 { (issue.spec_line - 1) as u32 } else { 0 };
    let v = chars_of(text);
    let bounds = line_bounds(v.as_slice());
    let idx = k as usize;
    let line: Vec<char> = if idx < bounds.len() {
        let (a, b) = bounds[idx];
        crate::spec_doc::slice_range(v.as_slice(), a, b)
    } else {
        Vec::new()
    };
    assert(line@ == nth_line(text@, k as int));
    let mut p: usize = 0;
    while p < line.len() && is_white_space_char(line[p])
        invariant
            p <= line@.len(),
            first_non_space(line@, 0) == first_non_space(line@, p as int),
        decreases line@.len() - p,
    {
        p = p + 1;
    }
    let start: u32 = if p < line.len() {
        let prefix = string_of(line.as_slice(), 0, p);
        assert(line@.subrange(0, p as int) == line@.take(p as int));
        prefix.as_str().len() as u32
    } else {
        0
    };
    let whole = string_of_all(line.as_slice());
    let end: u32 = whole.as_str().len() as u32;
    DiagnosticPlan { line: k, start_char: start, end_char: end, severity: severity(issue.issue_type), message: issue.message.clone() }
}

// ---------------------------------------------------------------------------
// The report

/// The name of a kind of finding in the language `lang` of the report.
pub open spec fn issue_label(t: AuditIssueType, lang: Seq<char>) -> Seq<char> {
    match t {
        AuditIssueType::MissingInCode => if lang == "ja"@ {
            "コード側定義なし"@
        } else if lang == "zh-cn"@ {
            "代码侧未定义"@
        } else if lang == "zh-tw"@ {
            "程式碼側未定義"@
        } else if lang == "ko"@ {
            "코드 측 정의 없음"@
        } else if lang == "et"@ {
            "Koodis puudub definitsioon"@
        } else if lang == "vi"@ {
            "Thiếu định nghĩa trong mã"@
        } else if lang == "es"@ {
            "Falta definición en código"@
        } else if lang == "fr"@ {
            "Définition manquante dans le code"@
        } else if lang == "de"@ {
            "Fehlende Definition im Code"@
        } else {
            "Missing in Code"@
        },
        AuditIssueType::TypeMismatch => if lang == "ja"@ {
            "型ミスマッチ"@
        } else if lang == "zh-cn"@ {
            "类型不匹配"@
        } else if lang == "zh-tw"@ {
            "型態不匹配"@
        } else if lang == "ko"@ {
            "타입 불일치"@
        } else if lang == "et"@ {
            "Tüübi lahknevus"@
        } else if lang == "vi"@ {
            "Sai kiểu dữ liệu"@
        } else if lang == "es"@ {
            "Discrepancia de tipo"@
        } else if lang == "fr"@ {
            "Incompatibilité de type"@
        } else if lang == "de"@ {
            "Typkonflikt"@
        } else {
            "Type Mismatch"@
        },
        AuditIssueType::ParamCountMismatch => if lang == "ja"@ {
            "引数個数ミスマッチ"@
        } else if lang == "zh-cn"@ {
            "参数数量不匹配"@
        } else if lang == "zh-tw"@ {
            "參數數量不匹配"@
        } else if lang == "ko"@ {
            "매개변수 개수 불일치"@
        } else if lang == "et"@ {
            "Parameetrite arvu lahknevus"@
        } else if lang == "vi"@ {
            "Số lượng tham số không khớp"@
        } else if lang == "es"@ {
            "Discrepancia de parámetros"@
        } else if lang == "fr"@ {
            "Incompatibilité du nombre de paramètres"@
        } else if lang == "de"@ {
            "Parameteranzahl-Konflikt"@
        } else {
            "Parameter Count Mismatch"@
        },
        AuditIssueType::ReturnTypeMismatch => if lang == "ja"@ {
            "戻り値ミスマッチ"@
        } else if lang == "zh-cn"@ {
            "返回值类型不匹配"@
        } else if lang == "zh-tw"@ {
            "傳回值型態不匹配"@
        } else if lang == "ko"@ {
            "반환 타입 불일치"@
        } else if lang == "et"@ {
            "Tagastustüübi lahknevus"@
        } else if lang == "vi"@ {
            "Kiểu trả về không khớp"@
        } else if lang == "es"@ {
            "Discrepancia de tipo de retorno"@
        } else if lang == "fr"@ {
            "Incompatibilité du type de retour"@
        } else if lang == "de"@ {
            "Rückgabetyp-Konflikt"@
        } else {
            "Return Type Mismatch"@
        },
        AuditIssueType::LineNumberMissing => if lang == "ja"@ {
            "行番号未記載"@
        } else if lang == "zh-cn"@ {
            "行号未填写"@
        } else if lang == "zh-tw"@ {
            "行號未填寫"@
        } else if lang == "ko"@ {
            "라인 번호 누락"@
        } else if lang == "et"@ {
            "Reanumber puudub"@
        } else if lang == "vi"@ {
            "Chưa ghi số dòng"@
        } else if lang == "es"@ {
            "Falta número de línea"@
        } else if lang == "fr"@ {
            "Numéro de ligne manquant"@
        } else if lang == "de"@ {
            "Zeilennummer fehlt"@
        } else {
            "Line Number Missing"@
        },
        AuditIssueType::LineNumberMismatch => if lang == "ja"@ {
            "行番号ミスマッチ"@
        } else if lang == "zh-cn"@ {
            "行号不匹配"@
        } else if lang == "zh-tw"@ {
            "行號不匹配"@
        } else if lang == "ko"@ {
            "라인 번호 불일치"@
        } else if lang == "et"@ {
            "Reanumbri lahknevus"@
        } else if lang == "vi"@ {
            "Số dòng không khớp"@
        } else if lang == "es"@ {
            "Discrepancia de número de línea"@
        } else if lang == "fr"@ {
            "Incompatibilité de dynamic número de línea"@
        } else if lang == "de"@ {
            "Zeilennummern-Konflikt"@
        } else {
            "Line Number Mismatch"@
        },
        AuditIssueType::DependencyNotUsed => if lang == "ja"@ {
            "依存先未使用"@
        } else if lang == "zh-cn"@ {
            "依赖项未使用"@
        } else if lang == "zh-tw"@ {
            "依賴項未使用"@
        } else if lang == "ko"@ {
            "의존성 미사용"@
        } else if lang == "et"@ {
            "Kasutamata sõltuvus"@
        } else if lang == "vi"@ {
            "Phụ thuộc chưa dùng"@
        } else if lang == "es"@ {
            "Dependencia no utilizada"@
        } else if lang == "fr"@ {
            "Dépendance non utilisée"@
        } else if lang == "de"@ {
            "Abhängigkeit nicht verwendet"@
        } else {
            "Dependency Not Used"@
        },
        AuditIssueType::DeadCode => if lang == "ja"@ {
            "デッドコード"@
        } else if lang == "zh-cn"@ {
            "无用代码"@
        } else if lang == "zh-tw"@ {
            "無用程式碼"@
        } else if lang == "ko"@ {
            "데드 코드"@
        } else if lang == "et"@ {
            "Surnud kood"@
        } else if lang == "vi"@ {
            "Mã chết"@
        } else if lang == "es"@ {
            "Código muerto"@
        } else if lang == "fr"@ {
            "Code mort"@
        } else if lang == "de"@ {
            "Toter Code"@
        } else {
            "Dead Code"@
        },
    }
}

/// The name of a kind of finding in the language of `locale`.
pub fn issue_type_label(t: AuditIssueType, locale: &str) -> (s: &'static str)
    ensures
        s@ == issue_label(t, language_of_locale(locale@)),
{
    let lang = resolve_language(locale);
    match t {
        AuditIssueType::MissingInCode => if str_is(lang, "ja") {
            "コード側定義なし"
        } else if str_is(lang, "zh-cn") {
            "代码侧未定义"
        } else if str_is(lang, "zh-tw") {
            "程式碼側未定義"
        } else if str_is(lang, "ko") {
            "코드 측 정의 없음"
        } else if str_is(lang, "et") {
            "Koodis puudub definitsioon"
        } else if str_is(lang, "vi") {
            "Thiếu định nghĩa trong mã"
        } else if str_is(lang, "es") {
            "Falta definición en código"
        } else if str_is(lang, "fr") {
            "Définition manquante dans le code"
        } else if str_is(lang, "de") {
            "Fehlende Definition im Code"
        } else {
            "Missing in Code"
        },
        AuditIssueType::TypeMismatch => if str_is(lang, "ja") {
            "型ミスマッチ"
        } else if str_is(lang, "zh-cn") {
            "类型不匹配"
        } else if str_is(lang, "zh-tw") {
            "型態不匹配"
        } else if str_is(lang, "ko") {
            "타입 불일치"
        } else if str_is(lang, "et") {
            "Tüübi lahknevus"
        } else if str_is(lang, "vi") {
            "Sai kiểu dữ liệu"
        } else if str_is(lang, "es") {
            "Discrepancia de tipo"
        } else if str_is(lang, "fr") {
            "Incompatibilité de type"
        } else if str_is(lang, "de") {
            "Typkonflikt"
        } else {
            "Type Mismatch"
        },
        AuditIssueType::ParamCountMismatch => if str_is(lang, "ja") {
            "引数個数ミスマッチ"
        } else if str_is(lang, "zh-cn") {
            "参数数量不匹配"
        } else if str_is(lang, "zh-tw") {
            "參數數量不匹配"
        } else if str_is(lang, "ko") {
            "매개변수 개수 불일치"
        } else if str_is(lang, "et") {
            "Parameetrite arvu lahknevus"
        } else if str_is(lang, "vi") {
            "Số lượng tham số không khớp"
        } else if str_is(lang, "es") {
            "Discrepancia de parámetros"
        } else if str_is(lang, "fr") {
            "Incompatibilité du nombre de paramètres"
        } else if str_is(lang, "de") {
            "Parameteranzahl-Konflikt"
        } else {
            "Parameter Count Mismatch"
        },
        AuditIssueType::ReturnTypeMismatch => if str_is(lang, "ja") {
            "戻り値ミスマッチ"
        } else if str_is(lang, "zh-cn") {
            "返回值类型不匹配"
        } else if str_is(lang, "zh-tw") {
            "傳回值型態不匹配"
        } else if str_is(lang, "ko") {
            "반환 타입 불일치"
        } else if str_is(lang, "et") {
            "Tagastustüübi lahknevus"
        } else if str_is(lang, "vi") {
            "Kiểu trả về không khớp"
        } else if str_is(lang, "es") {
            "Discrepancia de tipo de retorno"
        } else if str_is(lang, "fr") {
            "Incompatibilité du type de retour"
        } else if str_is(lang, "de") {
            "Rückgabetyp-Konflikt"
        } else {
            "Return Type Mismatch"
        },
        AuditIssueType::LineNumberMissing => if str_is(lang, "ja") {
            "行番号未記載"
        } else if str_is(lang, "zh-cn") {
            "行号未填写"
        } else if str_is(lang, "zh-tw") {
            "行號未填寫"
        } else if str_is(lang, "ko") {
            "라인 번호 누락"
        } else if str_is(lang, "et") {
            "Reanumber puudub"
        } else if str_is(lang, "vi") {
            "Chưa ghi số dòng"
        } else if str_is(lang, "es") {
            "Falta número de línea"
        } else if str_is(lang, "fr") {
            "Numéro de ligne manquant"
        } else if str_is(lang, "de") {
            "Zeilennummer fehlt"
        } else {
            "Line Number Missing"
        },
        AuditIssueType::LineNumberMismatch => if str_is(lang, "ja") {
            "行番号ミスマッチ"
        } else if str_is(lang, "zh-cn") {
            "行号不匹配"
        } else if str_is(lang, "zh-tw") {
            "行號不匹配"
        } else if str_is(lang, "ko") {
            "라인 번호 불일치"
        } else if str_is(lang, "et") {
            "Reanumbri lahknevus"
        } else if str_is(lang, "vi") {
            "Số dòng không khớp"
        } else if str_is(lang, "es") {
            "Discrepancia de número de línea"
        } else if str_is(lang, "fr") {
            "Incompatibilité de dynamic número de línea"
        } else if str_is(lang, "de") {
            "Zeilennummern-Konflikt"
        } else {
            "Line Number Mismatch"
        },
        AuditIssueType::DependencyNotUsed => if str_is(lang, "ja") {
            "依存先未使用"
        } else if str_is(lang, "zh-cn") {
            "依赖项未使用"
        } else if str_is(lang, "zh-tw") {
            "依賴項未使用"
        } else if str_is(lang, "ko") {
            "의존성 미사용"
        } else if str_is(lang, "et") {
            "Kasutamata sõltuvus"
        } else if str_is(lang, "vi") {
            "Phụ thuộc chưa dùng"
        } else if str_is(lang, "es") {
            "Dependencia no utilizada"
        } else if str_is(lang, "fr") {
            "Dépendance non utilisée"
        } else if str_is(lang, "de") {
            "Abhängigkeit nicht verwendet"
        } else {
            "Dependency Not Used"
        },
        AuditIssueType::DeadCode => if str_is(lang, "ja") {
            "デッドコード"
        } else if str_is(lang, "zh-cn") {
            "无用代码"
        } else if str_is(lang, "zh-tw") {
            "無用程式碼"
        } else if str_is(lang, "ko") {
            "데드 코드"
        } else if str_is(lang, "et") {
            "Surnud kood"
        } else if str_is(lang, "vi") {
            "Mã chết"
        } else if str_is(lang, "es") {
            "Código muerto"
        } else if str_is(lang, "fr") {
            "Code mort"
        } else if str_is(lang, "de") {
            "Toter Code"
        } else {
            "Dead Code"
        },
    }
}

/// The name of a kind of finding in a report that a scan of the whole
/// workspace writes: the same, but that a French report names an unused
/// dependency as a missing definition.
pub open spec fn scan_issue_label(t: AuditIssueType, lang: Seq<char>) -> Seq<char> {
    if t == AuditIssueType::DependencyNotUsed && lang == "fr"@ {
        "Définition manquante dans le code"@
    } else {
        issue_label(t, lang)
    }
}

pub fn scan_issue_type_label(t: AuditIssueType, locale: &str) -> (s: &'static str)
    ensures
        s@ == scan_issue_label(t, language_of_locale(locale@)),
{
    let lang = resolve_language(locale);
    if t == AuditIssueType::DependencyNotUsed && str_is(lang, "fr") {
        "Définition manquante dans le code"
    } else {
        issue_type_label(t, locale)
    }
}

/// The characters that Markdown reads as markup.
pub open spec fn is_markup(c: char) -> bool {
    c == '\\' || c == '`' || c == '*' || c == '_' || c == '[' || c == ']' || c == '<' || c == '>'
}

/// `s` with a backslash before each character that Markdown reads as markup.
pub open spec fn escape_markdown(s: Seq<char>) -> Seq<char>
    decreases s.len(),
{
    if s.len() == 0 {
        seq![]
    } else {
        (if is_markup(s[0]) { seq!['\\', s[0]] } else { seq![s[0]] }) + escape_markdown(s.drop_first())
    }
}

/// `t` with each backslash dropped and the character after it kept as it is.
pub open spec fn unescape_markdown(t: Seq<char>) -> Seq<char>
    decreases t.len(),
{
    if t.len() == 0 {
        seq![]
    } else if t[0] == '\\' && t.len() >= 2 {
        seq![t[1]] + unescape_markdown(t.skip(2))
    } else {
        seq![t[0]] + unescape_markdown(t.drop_first())
    }
}

/// Law: escaping loses nothing; dropping the escapes gives the text back.
pub proof fn lemma_escape_round_trip(s: Seq<char>)
    ensures
        unescape_markdown(escape_markdown(s)) == s,
    decreases s.len(),
{
    if s.len() > 0 {
        lemma_escape_round_trip(s.drop_first());
        let e = escape_markdown(s);
        let rest = escape_markdown(s.drop_first());
        if is_markup(s[0]) {
            assert(e =~= seq!['\\', s[0]] + rest);
            assert(e.skip(2) =~= rest);
        } else {
            assert(e =~= seq![s[0]] + rest);
            assert(e.drop_first() =~= rest);
        }
        assert(s =~= seq![s[0]] + s.drop_first());
    }
}

/// Appends the characters of `s`.
pub fn push_str(out: &mut Vec<char>, s: &str)
    ensures
        final(out)@ == old(out)@ + s@,
{
    let v = chars_of(s);
    let ghost start = out@;
    let mut i: usize = 0;
    while i < v.len()
        invariant
            i <= v@.len(),
            out@ == start + v@.take(i as int),
        decreases v@.len() - i,
    {
        out.push(v[i]);
        assert(v@.take(i + 1) == v@.take(i as int).push(v@[i as int]));
        i = i + 1;
    }
    assert(v@.take(v@.len() as int) == v@);
}

fn push_escaped(out: &mut Vec<char>, s: &str)
    ensures
        final(out)@ == old(out)@ + escape_markdown(s@),
{
    let v = chars_of(s);
    let ghost start = out@;
    let mut i: usize = 0;
    assert(v@.skip(0) == v@);
    while i < v.len()
        invariant
            i <= v@.len(),
            v@ == s@,
            out@ + escape_markdown(v@.skip(i as int)) == start + escape_markdown(v@),
        decreases v@.len() - i,
    {
        let c = v[i];
        let ghost before = out@;
        assert(v@.skip(i as int).drop_first() == v@.skip(i + 1));
        assert(v@.skip(i as int)[0] == c);
        let ghost piece = if is_markup(c) { seq!['\\', c] } else { seq![c] };
        assert(escape_markdown(v@.skip(i as int)) == piece + escape_markdown(v@.skip(i + 1)));
        if c == '\\' || c == '`' || c == '*' || c == '_' || c == '[' || c == ']' || c == '<' || c == '>' {
            out.push('\\');
        }
        out.push(c);
        assert(out@ == before + piece);
        assert((before + piece) + escape_markdown(v@.skip(i + 1)) =~= before + (piece + escape_markdown(v@.skip(i + 1))));
        i = i + 1;
    }
    assert(escape_markdown(v@.skip(v@.len() as int)) =~= Seq::<char>::empty());
    assert(out@ + Seq::<char>::empty() =~= out@);
}

/// Escapes the characters of `text` that Markdown reads as markup.
pub fn markdown_escaped(text: &str) -> (s: String)
    ensures
        s@ == escape_markdown(text@),
{
    let mut out: Vec<char> = Vec::new();
    push_escaped(&mut out, text);
    assert(out@ =~= escape_markdown(text@));
    string_of_all(out.as_slice())
}

/// `s` with each backslash turned into a slash.
pub open spec fn forward_slashes(s: Seq<char>) -> Seq<char> {
    s.map_values(|c: char| if c == '\\' { '/' } else { c })
}

/// One finding as the report lists it: its kind, the escaped symbol name
/// and message, and a link to the document line.
pub open spec fn entry_text(
    label: Seq<char>,
    name: Seq<char>,
    message: Seq<char>,
    relative: Seq<char>,
    path: Seq<char>,
    line: usize,
) -> Seq<char> {
    "- [ ] **"@ + label + "** (シンボル: `"@ + escape_markdown(name) + "`)\n  - **内容**: "@ + escape_markdown(message)
        + "\n  - **仕様書箇所**: ["@ + relative + "](file:///"@ + forward_slashes(path) + ") L"@ + decimal(line as nat)
        + "\n"@
}

/// A finding of the workspace with the place of its document: the path
/// relative to the workspace root, and the whole path.
pub struct ReportEntry {
    pub relative: String,
    pub path: String,
    pub issue: AuditIssue,
}

pub open spec fn entry_view(e: ReportEntry) -> (Seq<char>, Seq<char>, IssueView) {
    (e.relative@, e.path@, e.issue@)
}

/// The entries of the report, in the order of the findings.
pub open spec fn entries_text(lang: Seq<char>, es: Seq<(Seq<char>, Seq<char>, IssueView)>, whole_scan: bool) -> Seq<char>
    decreases es.len(),
{
    if es.len() == 0 {
        seq![]
    } else {
        let (relative, path, i) = es.last();
        let label = if whole_scan { scan_issue_label(i.issue_type, lang) } else { issue_label(i.issue_type, lang) };
        entries_text(lang, es.drop_last(), whole_scan) + entry_text(label, i.name, i.message, relative, path, i.spec_line)
    }
}

/// The report of the findings `es`: the title, header and section title in
/// the language of `locale`, then one entry per finding; none where there is
/// no finding.
pub open spec fn report_text(
    catalog: Seq<(Seq<char>, Seq<(Seq<char>, Seq<char>)>)>,
    locale: Seq<char>,
    es: Seq<(Seq<char>, Seq<char>, IssueView)>,
    whole_scan: bool,
) -> Option<Seq<char>> {
    if es.len() == 0 {
        None
    } else {
        Some(
            message_text(catalog, MessageKey::ReportTitle, locale) + message_text(catalog, MessageKey::ReportHeader, locale)
                + message_text(catalog, MessageKey::ReportSectionTitle, locale) + entries_text(
                language_of_locale(locale),
                es,
                whole_scan,
            ),
        )
    }
}

fn push_entry(out: &mut Vec<char>, label: &str, e: &ReportEntry)
    ensures
        final(out)@ == old(out)@ + entry_text(label@, e.issue.name@, e.issue.message@, e.relative@, e.path@, e.issue.spec_line),
{
    let ghost start = out@;
    push_str(out, "- [ ] **");
    push_str(out, label);
    push_str(out, "** (シンボル: `");
    push_escaped(out, e.issue.name.as_str());
    push_str(out, "`)\n  - **内容**: ");
    push_escaped(out, e.issue.message.as_str());
    push_str(out, "\n  - **仕様書箇所**: [");
    push_str(out, e.relative.as_str());
    push_str(out, "](file:///");
    let p = chars_of(e.path.as_str());
    let ghost mid = out@;
    let mut i: usize = 0;
    while i < p.len()
        invariant
            i <= p@.len(),
            p@ == e.path@,
            out@ == mid + forward_slashes(p@).take(i as int),
        decreases p@.len() - i,
    {
        let c = p[i];
        out.push(if c == '\\' { '/' } else { c });
        assert(forward_slashes(p@).take(i + 1) =~= forward_slashes(p@).take(i as int).push(if c == '\\' { '/' } else { c }));
        i = i + 1;
    }
    assert(forward_slashes(p@).take(p@.len() as int) =~= forward_slashes(p@));
    push_str(out, ") L");
    push_decimal(out, e.issue.spec_line);
    push_str(out, "\n");
    assert(out@ =~= start + entry_text(label@, e.issue.name@, e.issue.message@, e.relative@, e.path@, e.issue.spec_line));
}

/// Writes the report of the findings `entries` in the language of `locale`;
/// `None` where there is none, and the report file goes. A scan of the
/// whole workspace names the kinds of findings as `scan_issue_label` does.
pub fn audit_report(catalog: &LocaleCatalog, locale: &str, entries: &[ReportEntry], whole_scan: bool) -> (r: Option<String>)
    requires
        has_english(catalog_view(*catalog)),
    ensures
        opt_text(r) == report_text(catalog_view(*catalog), locale@, entries@.map_values(|e: ReportEntry| entry_view(e)), whole_scan),
{
    let ghost es = entries@.map_values(|e: ReportEntry| entry_view(e));
    if entries.len() == 0 {
        return None;
    }
    let mut out: Vec<char> = Vec::new();
    let title = get_message(catalog, &MessageKey::ReportTitle, locale);
    push_str(&mut out, title.as_str());
    let header = get_message(catalog, &MessageKey::ReportHeader, locale);
    push_str(&mut out, header.as_str());
    let section = get_message(catalog, &MessageKey::ReportSectionTitle, locale);
    push_str(&mut out, section.as_str());
    let ghost head = out@;
    let ghost lang = language_of_locale(locale@);
    let mut i: usize = 0;
    while i < entries.len()
        invariant
            i <= entries@.len(),
            es == entries@.map_values(|e: ReportEntry| entry_view(e)),
            lang == language_of_locale(locale@),
            out@ == head + entries_text(lang, es.take(i as int), whole_scan),
        decreases entries@.len() - i,
    {
        let e = &entries[i];
        assert(es.take(i + 1).drop_last() == es.take(i as int));
        assert(es.take(i + 1).last() == entry_view(*e));
        let label = if whole_scan {
            scan_issue_type_label(e.issue.issue_type, locale)
        } else {
            issue_type_label(e.issue.issue_type, locale)
        };
        push_entry(&mut out, label, e);
        i = i + 1;
    }
    assert(es.take(entries@.len() as int) == es);
    Some(string_of_all(out.as_slice()))
}

pub open spec fn opt_text(o: Option<String>) -> Option<Seq<char>> {
    match o {
        Some(s) => Some(s@),
        None => None,
    }
}

/// Law: of the findings only a missing definition is an error, and only the
/// two findings about line numbers are hints; every other finding (a kind,
/// parameter, return or variable type that differs, an unused dependency,
/// dead code) is a warning.
pub proof fn lemma_severity_levels(t: AuditIssueType)
    ensures
        (severity_of(t) == Severity::Error) <==> (t == AuditIssueType::MissingInCode),
        (severity_of(t) == Severity::Hint) <==> (t == AuditIssueType::LineNumberMissing
            || t == AuditIssueType::LineNumberMismatch),
        (severity_of(t) == Severity::Warning) <==> (t == AuditIssueType::TypeMismatch
            || t == AuditIssueType::ParamCountMismatch || t == AuditIssueType::ReturnTypeMismatch
            || t == AuditIssueType::DependencyNotUsed || t == AuditIssueType::DeadCode),
{
}

} // verus!
