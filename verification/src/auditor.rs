//! The audit: every symbol that a specification document declares is held
//! against the definitions found in the code and against the identifiers
//! that the project uses.
use vstd::prelude::*;
use crate::i18n::{
    catalog_view, decimal, decimal_string, get_message, has_english, render, LocaleCatalog,
    MessageKey,
};
use crate::symbols::{
    copy_string, pairs_view, strings_view, symbols_view, SymbolInfo, SymbolKind,
    SymbolView,
};

verus! {

#[derive(Debug, Clone, Copy, PartialEq, Eq, Structural)]
pub enum AuditIssueType {
    MissingInCode,
    TypeMismatch,
    ParamCountMismatch,
    ReturnTypeMismatch,
    LineNumberMissing,
    LineNumberMismatch,
    DependencyNotUsed,
    DeadCode,
}

/// One finding of the audit.
#[derive(Debug, Clone, PartialEq)]
pub struct AuditIssue {
    pub name: String,
    pub issue_type: AuditIssueType,
    pub message: String,
    /// The line of the specification document that the finding is about.
    pub spec_line: usize,
    pub code_line_range: Option<(usize, usize)>,
    pub expected_line_range: Option<(usize, usize)>,
}

pub struct IssueView {
    pub name: Seq<char>,
    pub issue_type: AuditIssueType,
    pub message: Seq<char>,
    pub spec_line: usize,
    pub code_line_range: Option<(usize, usize)>,
    pub expected_line_range: Option<(usize, usize)>,
}

impl View for AuditIssue {
    type V = IssueView;

    open spec fn view(&self) -> IssueView {
        IssueView {
            name: self.name@,
            issue_type: self.issue_type,
            message: self.message@,
            spec_line: self.spec_line,
            code_line_range: self.code_line_range,
            expected_line_range: self.expected_line_range,
        }
    }
}

pub open spec fn issues_view(v: Seq<AuditIssue>) -> Seq<IssueView> {
    v.map_values(|i: AuditIssue| i@)
}

pub type CatalogView = Seq<(Seq<char>, Seq<(Seq<char>, Seq<char>)>)>;

// ---------------------------------------------------------------------------
// The rules

/// The line of the document that declares a symbol; the first line where it
/// is not known.
pub open spec fn spec_line_of(sp: SymbolView) -> usize {
    match sp.spec_line {
        Some(l) => l,
        None => 1,
    }
}

pub open spec fn issue_of(
    sp: SymbolView,
    t: AuditIssueType,
    message: Seq<char>,
    code_range: Option<(usize, usize)>,
    expected: Option<(usize, usize)>,
) -> IssueView {
    IssueView {
        name: sp.name,
        issue_type: t,
        message,
        spec_line: spec_line_of(sp),
        code_line_range: code_range,
        expected_line_range: expected,
    }
}

/// The first definition in the code with the given name.
pub open spec fn find_code(codes: Seq<SymbolView>, name: Seq<char>) -> Option<SymbolView>
    decreases codes.len(),
{
    if codes.len() == 0 {
        None
    } else if codes[0].name == name {
        Some(codes[0])
    } else {
        find_code(codes.drop_first(), name)
    }
}

/// A line range as the messages write it: `L<first>-<last>`.
pub open spec fn range_label(r: (usize, usize)) -> Seq<char> {
    seq!['L'] + decimal(r.0 as nat) + seq!['-'] + decimal(r.1 as nat)
}

/// The type mismatches among the first `n` parameters, which the
/// specification and the code list in equal number.
pub open spec fn param_type_issues(
    sp: SymbolView,
    code: SymbolView,
    sparams: Seq<(Seq<char>, Seq<char>)>,
    cparams: Seq<(Seq<char>, Seq<char>)>,
    cat: CatalogView,
    locale: Seq<char>,
    n: nat,
) -> Seq<IssueView>
    decreases n,
{
    if n == 0 {
        seq![]
    } else {
        let prev = param_type_issues(sp, code, sparams, cparams, cat, locale, (n - 1) as nat);
        let i = n - 1;
        if sparams[i].1.len() > 0 && sparams[i].1 != cparams[i].1 {
            prev.push(issue_of(
                sp,
                AuditIssueType::TypeMismatch,
                render(cat, locale, "type_mismatch"@, seq![sp.name, sparams[i].0, sparams[i].1, cparams[i].1]),
                code.line_range,
                sp.line_range,
            ))
        } else {
            prev
        }
    }
}

/// The parameter findings of a function: a differing count, else the
/// parameters whose declared type differs.
pub open spec fn param_issues(sp: SymbolView, code: SymbolView, cat: CatalogView, locale: Seq<char>) -> Seq<IssueView> {
    match (sp.params, code.params) {
        (Some(s), Some(c)) => if s.len() != c.len() {
            seq![issue_of(
                sp,
                AuditIssueType::ParamCountMismatch,
                render(cat, locale, "param_count_mismatch"@, seq![sp.name, decimal(s.len()), decimal(c.len())]),
                code.line_range,
                sp.line_range,
            )]
        } else {
            param_type_issues(sp, code, s, c, cat, locale, s.len())
        },
        _ => seq![],
    }
}

/// The return type that the code gives a function: `()` where none is written.
pub open spec fn code_return_type(code: SymbolView) -> Seq<char> {
    match code.return_type {
        Some(r) => r,
        None => "()"@,
    }
}

pub open spec fn return_issues(sp: SymbolView, code: SymbolView, cat: CatalogView, locale: Seq<char>) -> Seq<IssueView> {
    match sp.return_type {
        Some(r) => if r.len() > 0 && r != code_return_type(code) {
            seq![issue_of(
                sp,
                AuditIssueType::ReturnTypeMismatch,
                render(cat, locale, "return_type_mismatch"@, seq![sp.name, r, code_return_type(code)]),
                code.line_range,
                sp.line_range,
            )]
        } else {
            seq![]
        },
        None => seq![],
    }
}

pub open spec fn var_type_issues(sp: SymbolView, code: SymbolView, cat: CatalogView, locale: Seq<char>) -> Seq<IssueView> {
    match (sp.var_type, code.var_type) {
        (Some(t), Some(c)) => if t.len() > 0 && t != c {
            seq![issue_of(
                sp,
                AuditIssueType::TypeMismatch,
                render(cat, locale, "var_type_mismatch"@, seq![sp.name, t, c]),
                code.line_range,
                sp.line_range,
            )]
        } else {
            seq![]
        },
        _ => seq![],
    }
}

/// The findings on a symbol's declared type: the signature of a function,
/// the type of a variable.
pub open spec fn type_issues(sp: SymbolView, code: SymbolView, cat: CatalogView, locale: Seq<char>) -> Seq<IssueView> {
    if sp.kind == SymbolKind::Function {
        param_issues(sp, code, cat, locale) + return_issues(sp, code, cat, locale)
    } else {
        var_type_issues(sp, code, cat, locale)
    }
}

/// The finding on the line numbers of a symbol: missing in the document, or
/// not those of the definition.
pub open spec fn line_issues(sp: SymbolView, code: SymbolView, cat: CatalogView, locale: Seq<char>) -> Seq<IssueView> {
    match sp.line_range {
        None => seq![issue_of(
            sp,
            AuditIssueType::LineNumberMissing,
            render(cat, locale, "line_number_missing"@, seq![sp.name]),
            code.line_range,
            None,
        )],
        Some(r) => match code.line_range {
            Some(c) => if r != c {
                seq![issue_of(
                    sp,
                    AuditIssueType::LineNumberMismatch,
                    render(cat, locale, "line_number_mismatch"@, seq![sp.name, range_label(r), range_label(c)]),
                    Some(c),
                    Some(r),
                )]
            } else {
                seq![]
            },
            None => seq![],
        },
    }
}

/// The end of `s` after the last `::` that a left-to-right scan from `i`
/// finds, a segment having begun at `start`.
pub open spec fn segment_from(s: Seq<char>, start: int, i: int) -> Seq<char>
    decreases s.len() - i,
{
    if i + 1 < s.len() {
        if s[i] == ':' && s[i + 1] == ':' {
            segment_from(s, i + 2, i + 2)
        } else {
            segment_from(s, start, i + 1)
        }
    } else {
        s.skip(start)
    }
}

/// The last of the parts into which `::` splits `s`.
pub open spec fn last_path_segment(s: Seq<char>) -> Seq<char> {
    segment_from(s, 0, 0)
}

/// A dependency counts as used where the definition uses its full path or
/// the last segment of it.
pub open spec fn uses_dependency(used: Option<Seq<Seq<char>>>, dep: Seq<char>) -> bool {
    match used {
        Some(u) => u.contains(dep) || u.contains(last_path_segment(dep)),
        None => false,
    }
}

pub open spec fn dependency_issues_upto(
    sp: SymbolView,
    code: SymbolView,
    deps: Seq<Seq<char>>,
    cat: CatalogView,
    locale: Seq<char>,
    n: nat,
) -> Seq<IssueView>
    decreases n,
{
    if n == 0 {
        seq![]
    } else {
        let prev = dependency_issues_upto(sp, code, deps, cat, locale, (n - 1) as nat);
        let dep = deps[n - 1];
        if !uses_dependency(code.used_symbols, dep) {
            prev.push(issue_of(
                sp,
                AuditIssueType::DependencyNotUsed,
                render(cat, locale, "dependency_not_used"@, seq![sp.name, dep]),
                code.line_range,
                None,
            ))
        } else {
            prev
        }
    }
}

/// The declared dependencies that the definition does not use.
pub open spec fn dependency_issues(sp: SymbolView, code: SymbolView, cat: CatalogView, locale: Seq<char>) -> Seq<IssueView> {
    match sp.dependencies {
        Some(deps) => dependency_issues_upto(sp, code, deps, cat, locale, deps.len()),
        None => seq![],
    }
}

/// A symbol that the project never uses.
pub open spec fn dead_code_issues(
    sp: SymbolView,
    code: SymbolView,
    used: Seq<Seq<char>>,
    cat: CatalogView,
    locale: Seq<char>,
) -> Seq<IssueView> {
    if !used.contains(sp.name) {
        seq![issue_of(
            sp,
            AuditIssueType::DeadCode,
            render(cat, locale, "dead_code"@, seq![sp.name]),
            code.line_range,
            None,
        )]
    } else {
        seq![]
    }
}

/// The findings on one declared symbol.
pub open spec fn symbol_issues(
    sp: SymbolView,
    codes: Seq<SymbolView>,
    used: Seq<Seq<char>>,
    cat: CatalogView,
    locale: Seq<char>,
) -> Seq<IssueView> {
    match find_code(codes, sp.name) {
        None => seq![issue_of(
            sp,
            AuditIssueType::MissingInCode,
            render(cat, locale, "missing_in_code"@, seq![sp.name]),
            None,
            sp.line_range,
        )],
        Some(code) => if sp.kind != code.kind {
            seq![issue_of(
                sp,
                AuditIssueType::TypeMismatch,
                render(cat, locale, "kind_mismatch"@, seq![sp.name, sp.kind.spec_label(), code.kind.spec_label()]),
                code.line_range,
                sp.line_range,
            )]
        } else {
            type_issues(sp, code, cat, locale)
                + line_issues(sp, code, cat, locale)
                + dependency_issues(sp, code, cat, locale)
                + dead_code_issues(sp, code, used, cat, locale)
        },
    }
}

/// The findings on all declared symbols, in the order of the declarations.
pub open spec fn audit_issues(
    specs: Seq<SymbolView>,
    codes: Seq<SymbolView>,
    used: Seq<Seq<char>>,
    cat: CatalogView,
    locale: Seq<char>,
) -> Seq<IssueView>
    decreases specs.len(),
{
    if specs.len() == 0 {
        seq![]
    } else {
        audit_issues(specs.drop_last(), codes, used, cat, locale) + symbol_issues(specs.last(), codes, used, cat, locale)
    }
}

// ---------------------------------------------------------------------------
// The audit

fn push_issue(out: &mut Vec<AuditIssue>, issue: AuditIssue)
    ensures
        issues_view(final(out)@) == issues_view(old(out)@).push(issue@),
{
    let ghost before = out@;
    out.push(issue);
    assert(issues_view(out@) =~= issues_view(before).push(issue@));
}

fn make_issue(
    sp: &SymbolInfo,
    t: AuditIssueType,
    message: String,
    code_range: Option<(usize, usize)>,
    expected: Option<(usize, usize)>,
) -> (i: AuditIssue)
    ensures
        i@ == issue_of(sp@, t, message@, code_range, expected),
{
    let spec_line = match sp.spec_line {
        Some(l) => l,
        None => 1,
    };
    AuditIssue {
        name: copy_string(&sp.name),
        issue_type: t,
        message,
        spec_line,
        code_line_range: code_range,
        expected_line_range: expected,
    }
}

/// The index of the first definition named `name`.
fn find_code_index(codes: &[SymbolInfo], name: &String) -> (r: Option<usize>)
    ensures
        match r {
            Some(k) => k < codes@.len() && find_code(symbols_view(codes@), name@) == Some(codes@[k as int]@),
            None => find_code(symbols_view(codes@), name@) is None,
        },
{
    let ghost all = symbols_view(codes@);
    let mut i: usize = 0;
    assert(all.skip(0) == all);
    while i < codes.len()
        invariant
            i <= codes@.len(),
            all == symbols_view(codes@),
            find_code(all, name@) == find_code(all.skip(i as int), name@),
        decreases codes@.len() - i,
    {
        if codes[i].name == *name {
            return Some(i);
        }
        assert(all.skip(i as int).drop_first() == all.skip(i + 1));
        i = i + 1;
    }
    None
}

/// `true` when `list` holds `s`.
pub fn contains_string(list: &[String], s: &String) -> (b: bool)
    ensures
        b == strings_view(list@).contains(s@),
{
    let mut i: usize = 0;
    while i < list.len()
        invariant
            i <= list@.len(),
            forall|k: int| 0 <= k < i ==> list@[k]@ != s@,
        decreases list@.len() - i,
    {
        if list[i] == *s {
            assert(strings_view(list@)[i as int] == s@);
            return true;
        }
        i = i + 1;
    }
    assert(!strings_view(list@).contains(s@)) by {
        if strings_view(list@).contains(s@) {
            let k = choose|k: int| 0 <= k < strings_view(list@).len() && strings_view(list@)[k] == s@;
            assert(list@[k]@ == s@);
        }
    }
    false
}

/// The last of the parts into which `::` splits `dep`.
pub fn last_segment(dep: &String) -> (r: String)
    ensures
        r@ == last_path_segment(dep@),
{
    let v = crate::text::chars_of(dep.as_str());
    let n = v.len();
    let mut start: usize = 0;
    let mut i: usize = 0;
    while i < n && n - i > 1
        invariant
            n == v@.len(),
            start <= i <= n,
            last_path_segment(v@) == segment_from(v@, start as int, i as int),
        decreases n - i,
    {
        if v[i] == ':' && v[i + 1] == ':' {
            start = i + 2;
            i = i + 2;
        } else {
            i = i + 1;
        }
    }
    assert(v@.subrange(start as int, n as int) == v@.skip(start as int));
    crate::text::string_of(v.as_slice(), start, n)
}

pub fn range_label_string(r: (usize, usize)) -> (s: String)
    ensures
        s@ == range_label(r),
{
    let mut s = String::new();
    crate::text::push_char(&mut s, 'L');
    s.append(decimal_string(r.0).as_str());
    crate::text::push_char(&mut s, '-');
    s.append(decimal_string(r.1).as_str());
    assert(s@ =~= range_label(r));
    s
}

fn add_param_issues(
    out: &mut Vec<AuditIssue>,
    sp: &SymbolInfo,
    code: &SymbolInfo,
    catalog: &LocaleCatalog,
    locale: &str,
)
    requires
        has_english(catalog_view(*catalog)),
    ensures
        issues_view(final(out)@) == issues_view(old(out)@) + param_issues(sp@, code@, catalog_view(*catalog), locale@),
{
    let ghost cat = catalog_view(*catalog);
    match (&sp.params, &code.params) {
        (Some(s), Some(c)) => {
            if s.len() != c.len() {
                let msg = get_message(
                    catalog,
                    &MessageKey::ParamCountMismatch(copy_string(&sp.name), s.len(), c.len()),
                    locale,
                );
                push_issue(out, make_issue(sp, AuditIssueType::ParamCountMismatch, msg, code.line_range, sp.line_range));
                assert(issues_view(out@) =~= issues_view(old(out)@) + param_issues(sp@, code@, cat, locale@));
            } else {
                let ghost sv = pairs_view(s@);
                let ghost cv = pairs_view(c@);
                let mut i: usize = 0;
                while i < s.len()
                    invariant
                        s@.len() == c@.len(),
                        sv == pairs_view(s@),
                        cv == pairs_view(c@),
                        cat == catalog_view(*catalog),
                        has_english(cat),
                        i <= s@.len(),
                        issues_view(out@) == issues_view(old(out)@)
                            + param_type_issues(sp@, code@, sv, cv, cat, locale@, i as nat),
                    decreases s@.len() - i,
                {
                    let (s_name, s_type) = &s[i];
                    let (_, c_type) = &c[i];
                    if !s_type.as_str().is_empty() && !(*s_type == *c_type) {
                        let msg = get_message(
                            catalog,
                            &MessageKey::TypeMismatch(
                                copy_string(&sp.name),
                                copy_string(s_name),
                                copy_string(s_type),
                                copy_string(c_type),
                            ),
                            locale,
                        );
                        push_issue(out, make_issue(sp, AuditIssueType::TypeMismatch, msg, code.line_range, sp.line_range));
                    }
                    i = i + 1;
                }
            }
        },
        _ => {
            assert(issues_view(out@) =~= issues_view(old(out)@) + param_issues(sp@, code@, cat, locale@));
        },
    }
}

fn add_return_issues(
    out: &mut Vec<AuditIssue>,
    sp: &SymbolInfo,
    code: &SymbolInfo,
    catalog: &LocaleCatalog,
    locale: &str,
)
    requires
        has_english(catalog_view(*catalog)),
    ensures
        issues_view(final(out)@) == issues_view(old(out)@) + return_issues(sp@, code@, catalog_view(*catalog), locale@),
{
    let ghost cat = catalog_view(*catalog);
    if let Some(spec_ret) = &sp.return_type {
        if !spec_ret.as_str().is_empty() {
            let code_ret: String = match &code.return_type {
                Some(r) => copy_string(r),
                None => String::from_str("()"),
            };
            if !(*spec_ret == code_ret) {
                let msg = get_message(
                    catalog,
                    &MessageKey::ReturnTypeMismatch(copy_string(&sp.name), copy_string(spec_ret), copy_string(&code_ret)),
                    locale,
                );
                push_issue(out, make_issue(sp, AuditIssueType::ReturnTypeMismatch, msg, code.line_range, sp.line_range));
                return;
            }
        }
    }
    assert(issues_view(out@) =~= issues_view(old(out)@) + return_issues(sp@, code@, cat, locale@));
}

fn add_var_type_issues(
    out: &mut Vec<AuditIssue>,
    sp: &SymbolInfo,
    code: &SymbolInfo,
    catalog: &LocaleCatalog,
    locale: &str,
)
    requires
        has_english(catalog_view(*catalog)),
    ensures
        issues_view(final(out)@) == issues_view(old(out)@) + var_type_issues(sp@, code@, catalog_view(*catalog), locale@),
{
    let ghost cat = catalog_view(*catalog);
    if let Some(spec_type) = &sp.var_type {
        if !spec_type.as_str().is_empty() {
            if let Some(code_type) = &code.var_type {
                if !(*spec_type == *code_type) {
                    let msg = get_message(
                        catalog,
                        &MessageKey::VarTypeMismatch(copy_string(&sp.name), copy_string(spec_type), copy_string(code_type)),
                        locale,
                    );
                    push_issue(out, make_issue(sp, AuditIssueType::TypeMismatch, msg, code.line_range, sp.line_range));
                    return;
                }
            }
        }
    }
    assert(issues_view(out@) =~= issues_view(old(out)@) + var_type_issues(sp@, code@, cat, locale@));
}

fn add_line_issues(
    out: &mut Vec<AuditIssue>,
    sp: &SymbolInfo,
    code: &SymbolInfo,
    catalog: &LocaleCatalog,
    locale: &str,
)
    requires
        has_english(catalog_view(*catalog)),
    ensures
        issues_view(final(out)@) == issues_view(old(out)@) + line_issues(sp@, code@, catalog_view(*catalog), locale@),
{
    let ghost cat = catalog_view(*catalog);
    match sp.line_range {
        None => {
            let msg = get_message(catalog, &MessageKey::LineNumberMissing(copy_string(&sp.name)), locale);
            push_issue(out, make_issue(sp, AuditIssueType::LineNumberMissing, msg, code.line_range, None));
        },
        Some(spec_range) => {
            if let Some(code_range) = code.line_range {
                if spec_range.0 != code_range.0 || spec_range.1 != code_range.1 {
                    let msg = get_message(
                        catalog,
                        &MessageKey::LineNumberMismatch(
                            copy_string(&sp.name),
                            range_label_string(spec_range),
                            range_label_string(code_range),
                        ),
                        locale,
                    );
                    push_issue(
                        out,
                        make_issue(sp, AuditIssueType::LineNumberMismatch, msg, Some(code_range), Some(spec_range)),
                    );
                    return;
                }
            }
            assert(issues_view(out@) =~= issues_view(old(out)@) + line_issues(sp@, code@, cat, locale@));
        },
    }
}

fn add_dependency_issues(
    out: &mut Vec<AuditIssue>,
    sp: &SymbolInfo,
    code: &SymbolInfo,
    catalog: &LocaleCatalog,
    locale: &str,
)
    requires
        has_english(catalog_view(*catalog)),
    ensures
        issues_view(final(out)@) == issues_view(old(out)@) + dependency_issues(sp@, code@, catalog_view(*catalog), locale@),
{
    let ghost cat = catalog_view(*catalog);
    match &sp.dependencies {
        Some(deps) => {
            let ghost dv = strings_view(deps@);
            let mut i: usize = 0;
            while i < deps.len()
                invariant
                    i <= deps@.len(),
                    dv == strings_view(deps@),
                    cat == catalog_view(*catalog),
                    has_english(cat),
                    sp@.dependencies == Some(dv),
                    issues_view(out@) == issues_view(old(out)@) + dependency_issues_upto(sp@, code@, dv, cat, locale@, i as nat),
                decreases deps@.len() - i,
            {
                let dep = &deps[i];
                let has_dep = match &code.used_symbols {
                    Some(used) => contains_string(used.as_slice(), dep) || contains_string(used.as_slice(), &last_segment(dep)),
                    None => false,
                };
                assert(has_dep == uses_dependency(code@.used_symbols, dv[i as int]));
                if !has_dep {
                    let msg = get_message(
                        catalog,
                        &MessageKey::DependencyNotUsed(copy_string(&sp.name), copy_string(dep)),
                        locale,
                    );
                    push_issue(out, make_issue(sp, AuditIssueType::DependencyNotUsed, msg, code.line_range, None));
                }
                i = i + 1;
            }
        },
        None => {
            assert(issues_view(out@) =~= issues_view(old(out)@) + dependency_issues(sp@, code@, cat, locale@));
        },
    }
}

#[verifier::spinoff_prover]
#[verifier::rlimit(50)]
fn add_symbol_issues(
    out: &mut Vec<AuditIssue>,
    sp: &SymbolInfo,
    code_symbols: &[SymbolInfo],
    project_used_symbols: &[String],
    catalog: &LocaleCatalog,
    locale: &str,
)
    requires
        has_english(catalog_view(*catalog)),
    ensures
        issues_view(final(out)@) == issues_view(old(out)@) + symbol_issues(
            sp@,
            symbols_view(code_symbols@),
            strings_view(project_used_symbols@),
            catalog_view(*catalog),
            locale@,
        ),
{
    let ghost cat = catalog_view(*catalog);
    let ghost base = issues_view(out@);
    match find_code_index(code_symbols, &sp.name) {
        None => {
            let msg = get_message(catalog, &MessageKey::MissingInCode(copy_string(&sp.name)), locale);
            push_issue(out, make_issue(sp, AuditIssueType::MissingInCode, msg, None, sp.line_range));
        },
        Some(k) => {
            let code = &code_symbols[k];
            if sp.kind != code.kind {
                let msg = get_message(
                    catalog,
                    &MessageKey::KindMismatch(copy_string(&sp.name), sp.kind.label(), code.kind.label()),
                    locale,
                );
                push_issue(out, make_issue(sp, AuditIssueType::TypeMismatch, msg, code.line_range, sp.line_range));
                return;
            }
            let ghost t0 = issues_view(out@);
            if sp.kind == SymbolKind::Function {
                add_param_issues(out, sp, code, catalog, locale);
                add_return_issues(out, sp, code, catalog, locale);
            } else {
                add_var_type_issues(out, sp, code, catalog, locale);
            }
            let ghost t1 = issues_view(out@);
            assert(t1 == base + type_issues(sp@, code@, cat, locale@));
            add_line_issues(out, sp, code, catalog, locale);
            add_dependency_issues(out, sp, code, catalog, locale);
            let ghost t3 = issues_view(out@);
            if !contains_string(project_used_symbols, &sp.name) {
                let msg = get_message(catalog, &MessageKey::DeadCode(copy_string(&sp.name)), locale);
                push_issue(out, make_issue(sp, AuditIssueType::DeadCode, msg, code.line_range, None));
            }
            assert(issues_view(out@) =~= base + (type_issues(sp@, code@, cat, locale@)
                + line_issues(sp@, code@, cat, locale@)
                + dependency_issues(sp@, code@, cat, locale@)
                + dead_code_issues(sp@, code@, strings_view(project_used_symbols@), cat, locale@)));
        },
    }
}

/// Audits the symbols that a specification document declares against the
/// definitions found in the code and the identifiers the project uses.
/// Messages come from `catalog` in the language of `locale`.
pub fn audit_symbols(
    spec_symbols: &[SymbolInfo],
    code_symbols: &[SymbolInfo],
    project_used_symbols: &[String],
    locale: &str,
    catalog: &LocaleCatalog,
) -> (issues: Vec<AuditIssue>)
    requires
        has_english(catalog_view(*catalog)),
    ensures
        issues_view(issues@) == audit_issues(
            symbols_view(spec_symbols@),
            symbols_view(code_symbols@),
            strings_view(project_used_symbols@),
            catalog_view(*catalog),
            locale@,
        ),
{
    let ghost specs = symbols_view(spec_symbols@);
    let ghost codes = symbols_view(code_symbols@);
    let ghost used = strings_view(project_used_symbols@);
    let ghost cat = catalog_view(*catalog);
    let mut issues: Vec<AuditIssue> = Vec::new();
    let mut i: usize = 0;
    assert(issues_view(issues@) =~= audit_issues(specs.take(0), codes, used, cat, locale@));
    while i < spec_symbols.len()
        invariant
            i <= spec_symbols@.len(),
            specs == symbols_view(spec_symbols@),
            codes == symbols_view(code_symbols@),
            used == strings_view(project_used_symbols@),
            cat == catalog_view(*catalog),
            has_english(cat),
            issues_view(issues@) == audit_issues(specs.take(i as int), codes, used, cat, locale@),
        decreases spec_symbols@.len() - i,
    {
        add_symbol_issues(&mut issues, &spec_symbols[i], code_symbols, project_used_symbols, catalog, locale);
        assert(specs.take(i + 1).drop_last() == specs.take(i as int));
        i = i + 1;
    }
    assert(specs.take(spec_symbols@.len() as int) == specs);
    issues
}

} // verus!

verus! {

// ---------------------------------------------------------------------------
// Laws of the audit

/// Every finding of `issues` is about the symbol `sp`, at its line.
pub open spec fn all_about(issues: Seq<IssueView>, sp: SymbolView) -> bool {
    forall|k: int| 0 <= k < issues.len() ==> #[trigger] issues[k].name == sp.name && issues[k].spec_line == spec_line_of(sp)
}

proof fn lemma_param_type_issues_about(
    sp: SymbolView,
    code: SymbolView,
    s: Seq<(Seq<char>, Seq<char>)>,
    c: Seq<(Seq<char>, Seq<char>)>,
    cat: CatalogView,
    locale: Seq<char>,
    n: nat,
)
    ensures
        all_about(param_type_issues(sp, code, s, c, cat, locale, n), sp),
    decreases n,
{
    if n > 0 {
        lemma_param_type_issues_about(sp, code, s, c, cat, locale, (n - 1) as nat);
        let prev = param_type_issues(sp, code, s, c, cat, locale, (n - 1) as nat);
        let all = param_type_issues(sp, code, s, c, cat, locale, n);
        assert forall|k: int| 0 <= k < all.len() implies #[trigger] all[k].name == sp.name
            && all[k].spec_line == spec_line_of(sp) by {
            if k < prev.len() {
                assert(all[k] == prev[k]);
            }
        }
    }
}

proof fn lemma_dependency_issues_about(
    sp: SymbolView,
    code: SymbolView,
    deps: Seq<Seq<char>>,
    cat: CatalogView,
    locale: Seq<char>,
    n: nat,
)
    ensures
        all_about(dependency_issues_upto(sp, code, deps, cat, locale, n), sp),
    decreases n,
{
    if n > 0 {
        lemma_dependency_issues_about(sp, code, deps, cat, locale, (n - 1) as nat);
        let prev = dependency_issues_upto(sp, code, deps, cat, locale, (n - 1) as nat);
        let all = dependency_issues_upto(sp, code, deps, cat, locale, n);
        assert forall|k: int| 0 <= k < all.len() implies #[trigger] all[k].name == sp.name
            && all[k].spec_line == spec_line_of(sp) by {
            if k < prev.len() {
                assert(all[k] == prev[k]);
            }
        }
    }
}

proof fn lemma_concat_about(a: Seq<IssueView>, b: Seq<IssueView>, sp: SymbolView)
    requires
        all_about(a, sp),
        all_about(b, sp),
    ensures
        all_about(a + b, sp),
{
    assert forall|k: int| 0 <= k < (a + b).len() implies #[trigger] (a + b)[k].name == sp.name
        && (a + b)[k].spec_line == spec_line_of(sp) by {
        if k < a.len() {
            assert((a + b)[k] == a[k]);
            assert(a[k].name == sp.name);
        } else {
            assert((a + b)[k] == b[k - a.len()]);
            assert(b[k - a.len()].name == sp.name);
        }
    }
}

/// The findings on one declaration all name it and point at its line.
pub proof fn lemma_symbol_issues_about(
    sp: SymbolView,
    codes: Seq<SymbolView>,
    used: Seq<Seq<char>>,
    cat: CatalogView,
    locale: Seq<char>,
)
    ensures
        all_about(symbol_issues(sp, codes, used, cat, locale), sp),
{
    match find_code(codes, sp.name) {
        None => {},
        Some(code) => {
            if sp.kind == code.kind {
                match (sp.params, code.params) {
                    (Some(s), Some(c)) => {
                        if s.len() == c.len() {
                            lemma_param_type_issues_about(sp, code, s, c, cat, locale, s.len());
                        }
                    },
                    _ => {},
                }
                match sp.dependencies {
                    Some(deps) => lemma_dependency_issues_about(sp, code, deps, cat, locale, deps.len()),
                    None => {},
                }
                let p = param_issues(sp, code, cat, locale);
                let r = return_issues(sp, code, cat, locale);
                let v = var_type_issues(sp, code, cat, locale);
                let l = line_issues(sp, code, cat, locale);
                let d = dependency_issues(sp, code, cat, locale);
                let x = dead_code_issues(sp, code, used, cat, locale);
                lemma_concat_about(p, r, sp);
                lemma_concat_about(type_issues(sp, code, cat, locale), l, sp);
                lemma_concat_about(type_issues(sp, code, cat, locale) + l, d, sp);
                lemma_concat_about(type_issues(sp, code, cat, locale) + l + d, x, sp);
            }
        },
    }
}

/// Every finding of the audit names a declared symbol and points at the
/// line of the document that declares it.
pub proof fn lemma_issues_point_at_declarations(
    specs: Seq<SymbolView>,
    codes: Seq<SymbolView>,
    used: Seq<Seq<char>>,
    cat: CatalogView,
    locale: Seq<char>,
)
    ensures
        forall|k: int| 0 <= k < audit_issues(specs, codes, used, cat, locale).len() ==>
            exists|j: int| 0 <= j < specs.len()
                && #[trigger] audit_issues(specs, codes, used, cat, locale)[k].name == specs[j].name
                && audit_issues(specs, codes, used, cat, locale)[k].spec_line == spec_line_of(specs[j]),
    decreases specs.len(),
{
    if specs.len() > 0 {
        let init = specs.drop_last();
        lemma_issues_point_at_declarations(init, codes, used, cat, locale);
        lemma_symbol_issues_about(specs.last(), codes, used, cat, locale);
        let a = audit_issues(init, codes, used, cat, locale);
        let b = symbol_issues(specs.last(), codes, used, cat, locale);
        assert forall|k: int| 0 <= k < (a + b).len() implies exists|j: int| 0 <= j < specs.len()
            && #[trigger] (a + b)[k].name == specs[j].name && (a + b)[k].spec_line == spec_line_of(specs[j]) by {
            if k < a.len() {
                assert((a + b)[k] == a[k]);
                let j = choose|j: int| 0 <= j < init.len() && a[k].name == init[j].name
                    && a[k].spec_line == spec_line_of(init[j]);
                assert(specs[j] == init[j]);
            } else {
                assert((a + b)[k] == b[k - a.len()]);
                assert(b[k - a.len()].name == specs.last().name);
                assert(specs[specs.len() - 1] == specs.last());
            }
        }
    }
}

/// Auditing two runs of declarations one after the other gives the findings
/// of the first run followed by those of the second.
pub proof fn lemma_audit_concatenates(
    first: Seq<SymbolView>,
    second: Seq<SymbolView>,
    codes: Seq<SymbolView>,
    used: Seq<Seq<char>>,
    cat: CatalogView,
    locale: Seq<char>,
)
    ensures
        audit_issues(first + second, codes, used, cat, locale)
            == audit_issues(first, codes, used, cat, locale) + audit_issues(second, codes, used, cat, locale),
    decreases second.len(),
{
    if second.len() == 0 {
        assert(first + second == first);
    } else {
        lemma_audit_concatenates(first, second.drop_last(), codes, used, cat, locale);
        assert((first + second).drop_last() == first + second.drop_last());
        assert((first + second).last() == second.last());
    }
}

/// A declaration with no definition of its name in the code draws exactly
/// one finding: that it is missing in the code.
pub proof fn lemma_missing_definition(
    sp: SymbolView,
    codes: Seq<SymbolView>,
    used: Seq<Seq<char>>,
    cat: CatalogView,
    locale: Seq<char>,
)
    requires
        forall|k: int| 0 <= k < codes.len() ==> codes[k].name != sp.name,
    ensures
        symbol_issues(sp, codes, used, cat, locale).len() == 1,
        symbol_issues(sp, codes, used, cat, locale)[0].issue_type == AuditIssueType::MissingInCode,
    decreases codes.len(),
{
    lemma_find_code_none(codes, sp.name);
}

proof fn lemma_find_code_none(codes: Seq<SymbolView>, name: Seq<char>)
    requires
        forall|k: int| 0 <= k < codes.len() ==> codes[k].name != name,
    ensures
        find_code(codes, name) is None,
    decreases codes.len(),
{
    if codes.len() > 0 {
        assert(codes[0].name != name);
        assert forall|k: int| 0 <= k < codes.drop_first().len() implies codes.drop_first()[k].name != name by {
            assert(codes.drop_first()[k] == codes[k + 1]);
        }
        lemma_find_code_none(codes.drop_first(), name);
    }
}

/// A declaration of the wrong kind (a variable for a function or the
/// reverse) draws exactly one finding, a type mismatch, and no other check.
pub proof fn lemma_kind_mismatch_alone(
    sp: SymbolView,
    codes: Seq<SymbolView>,
    used: Seq<Seq<char>>,
    cat: CatalogView,
    locale: Seq<char>,
)
    requires
        find_code(codes, sp.name) matches Some(code) && code.kind != sp.kind,
    ensures
        symbol_issues(sp, codes, used, cat, locale).len() == 1,
        symbol_issues(sp, codes, used, cat, locale)[0].issue_type == AuditIssueType::TypeMismatch,
{
}

proof fn lemma_equal_params_no_issue(
    sp: SymbolView,
    code: SymbolView,
    s: Seq<(Seq<char>, Seq<char>)>,
    cat: CatalogView,
    locale: Seq<char>,
    n: nat,
)
    requires
        n <= s.len(),
    ensures
        param_type_issues(sp, code, s, s, cat, locale, n) == Seq::<IssueView>::empty(),
    decreases n,
{
    if n > 0 {
        lemma_equal_params_no_issue(sp, code, s, cat, locale, (n - 1) as nat);
    }
}

proof fn lemma_used_deps_no_issue(
    sp: SymbolView,
    code: SymbolView,
    deps: Seq<Seq<char>>,
    cat: CatalogView,
    locale: Seq<char>,
    n: nat,
)
    requires
        n <= deps.len(),
        forall|k: int| 0 <= k < deps.len() ==> uses_dependency(code.used_symbols, #[trigger] deps[k]),
    ensures
        dependency_issues_upto(sp, code, deps, cat, locale, n) == Seq::<IssueView>::empty(),
    decreases n,
{
    if n > 0 {
        lemma_used_deps_no_issue(sp, code, deps, cat, locale, (n - 1) as nat);
    }
}

/// A declaration that states exactly what its definition has (kind,
/// parameters, return type, variable type and line numbers), whose
/// dependencies the definition all uses and that the project uses, draws
/// no finding.
pub proof fn lemma_faithful_declaration_is_clean(
    sp: SymbolView,
    codes: Seq<SymbolView>,
    used: Seq<Seq<char>>,
    cat: CatalogView,
    locale: Seq<char>,
)
    requires
        find_code(codes, sp.name) matches Some(code) && {
            &&& code.kind == sp.kind
            &&& code.params == sp.params
            &&& code.return_type == sp.return_type
            &&& code.var_type == sp.var_type
            &&& code.line_range == sp.line_range
            &&& sp.line_range is Some
            &&& (sp.dependencies matches Some(deps) ==> forall|k: int|
                0 <= k < deps.len() ==> uses_dependency(code.used_symbols, #[trigger] deps[k]))
        },
        used.contains(sp.name),
    ensures
        symbol_issues(sp, codes, used, cat, locale) == Seq::<IssueView>::empty(),
{
    let code = find_code(codes, sp.name)->0;
    match sp.params {
        Some(s) => lemma_equal_params_no_issue(sp, code, s, cat, locale, s.len()),
        None => {},
    }
    match sp.dependencies {
        Some(deps) => lemma_used_deps_no_issue(sp, code, deps, cat, locale, deps.len()),
        None => {},
    }
    assert(type_issues(sp, code, cat, locale) =~= Seq::<IssueView>::empty());
    assert(symbol_issues(sp, codes, used, cat, locale) =~= Seq::<IssueView>::empty());
}

} // verus!

verus! {

// ---------------------------------------------------------------------------
// Order and uses

/// Law: when the declarations come in the order of their lines, so do the
/// findings.
pub proof fn lemma_findings_follow_declarations(
    specs: Seq<SymbolView>,
    codes: Seq<SymbolView>,
    used: Seq<Seq<char>>,
    cat: CatalogView,
    locale: Seq<char>,
)
    requires
        forall|i: int, j: int| 0 <= i <= j < specs.len() ==> spec_line_of(specs[i]) <= spec_line_of(specs[j]),
    ensures
        forall|a: int, b: int|
            0 <= a <= b < audit_issues(specs, codes, used, cat, locale).len() ==> #[trigger] audit_issues(
                specs,
                codes,
                used,
                cat,
                locale,
            )[a].spec_line <= #[trigger] audit_issues(specs, codes, used, cat, locale)[b].spec_line,
    decreases specs.len(),
{
    if specs.len() > 0 {
        let init = specs.drop_last();
        lemma_findings_follow_declarations(init, codes, used, cat, locale);
        lemma_issues_point_at_declarations(init, codes, used, cat, locale);
        lemma_symbol_issues_about(specs.last(), codes, used, cat, locale);
        let x = audit_issues(init, codes, used, cat, locale);
        let y = symbol_issues(specs.last(), codes, used, cat, locale);
        assert(audit_issues(specs, codes, used, cat, locale) == x + y);
        assert forall|a: int, b: int| 0 <= a <= b < (x + y).len() implies #[trigger] (x + y)[a].spec_line <= #[trigger] (
        x + y)[b].spec_line by {
            if b < x.len() {
                assert((x + y)[a] == x[a] && (x + y)[b] == x[b]);
            } else if a < x.len() {
                assert((x + y)[a] == x[a]);
                let j = choose|j: int| 0 <= j < init.len() && #[trigger] x[a].name == init[j].name
                    && x[a].spec_line == spec_line_of(init[j]);
                assert(init[j] == specs[j]);
                assert(specs.last() == specs[specs.len() - 1]);
                assert((x + y)[b] == y[b - x.len()]);
                assert(y[b - x.len()].name == specs.last().name);
            } else {
                assert((x + y)[a] == y[a - x.len()] && (x + y)[b] == y[b - x.len()]);
                assert(y[a - x.len()].name == specs.last().name);
                assert(y[b - x.len()].name == specs.last().name);
            }
        }
    }
}

/// `issues` without the dead-code findings on names that `used` holds.
pub open spec fn without_used_dead_code(issues: Seq<IssueView>, used: Seq<Seq<char>>) -> Seq<IssueView>
    decreases issues.len(),
{
    if issues.len() == 0 {
        seq![]
    } else {
        let last = issues.last();
        without_used_dead_code(issues.drop_last(), used) + if last.issue_type == AuditIssueType::DeadCode
            && used.contains(last.name) {
            Seq::<IssueView>::empty()
        } else {
            seq![last]
        }
    }
}

pub open spec fn no_dead_code(issues: Seq<IssueView>) -> bool {
    forall|k: int| 0 <= k < issues.len() ==> (#[trigger] issues[k]).issue_type != AuditIssueType::DeadCode
}

proof fn lemma_without_concat(a: Seq<IssueView>, b: Seq<IssueView>, used: Seq<Seq<char>>)
    ensures
        without_used_dead_code(a + b, used) == without_used_dead_code(a, used) + without_used_dead_code(b, used),
    decreases b.len(),
{
    if b.len() == 0 {
        assert(a + b =~= a);
        assert(without_used_dead_code(a, used) + Seq::<IssueView>::empty() =~= without_used_dead_code(a, used));
    } else {
        lemma_without_concat(a, b.drop_last(), used);
        assert((a + b).drop_last() =~= a + b.drop_last());
        assert((a + b).last() == b.last());
        let w = |s: Seq<IssueView>| without_used_dead_code(s, used);
        let t = if b.last().issue_type == AuditIssueType::DeadCode && used.contains(b.last().name) {
            Seq::<IssueView>::empty()
        } else {
            seq![b.last()]
        };
        assert(w(a) + w(b.drop_last()) + t =~= w(a) + (w(b.drop_last()) + t));
    }
}

proof fn lemma_without_keeps(s: Seq<IssueView>, used: Seq<Seq<char>>)
    requires
        no_dead_code(s),
    ensures
        without_used_dead_code(s, used) == s,
    decreases s.len(),
{
    if s.len() > 0 {
        assert(no_dead_code(s.drop_last())) by {
            assert forall|k: int| 0 <= k < s.drop_last().len() implies (#[trigger] s.drop_last()[k]).issue_type
                != AuditIssueType::DeadCode by {
                assert(s.drop_last()[k] == s[k]);
            }
        }
        lemma_without_keeps(s.drop_last(), used);
        assert(s.last() == s[s.len() - 1]);
        assert(s.drop_last().push(s.last()) =~= s);
    }
}

proof fn lemma_no_dead_concat(a: Seq<IssueView>, b: Seq<IssueView>)
    requires
        no_dead_code(a),
        no_dead_code(b),
    ensures
        no_dead_code(a + b),
{
    assert forall|k: int| 0 <= k < (a + b).len() implies (#[trigger] (a + b)[k]).issue_type != AuditIssueType::DeadCode by {
        if k < a.len() {
            assert((a + b)[k] == a[k]);
        } else {
            assert((a + b)[k] == b[k - a.len()]);
        }
    }
}

proof fn lemma_param_type_no_dead(
    sp: SymbolView,
    code: SymbolView,
    s: Seq<(Seq<char>, Seq<char>)>,
    c: Seq<(Seq<char>, Seq<char>)>,
    cat: CatalogView,
    locale: Seq<char>,
    n: nat,
)
    ensures
        no_dead_code(param_type_issues(sp, code, s, c, cat, locale, n)),
    decreases n,
{
    if n > 0 {
        lemma_param_type_no_dead(sp, code, s, c, cat, locale, (n - 1) as nat);
        let prev = param_type_issues(sp, code, s, c, cat, locale, (n - 1) as nat);
        let all = param_type_issues(sp, code, s, c, cat, locale, n);
        assert forall|k: int| 0 <= k < all.len() implies (#[trigger] all[k]).issue_type != AuditIssueType::DeadCode by {
            if k < prev.len() {
                assert(all[k] == prev[k]);
            }
        }
    }
}

proof fn lemma_dependency_no_dead(
    sp: SymbolView,
    code: SymbolView,
    deps: Seq<Seq<char>>,
    cat: CatalogView,
    locale: Seq<char>,
    n: nat,
)
    ensures
        no_dead_code(dependency_issues_upto(sp, code, deps, cat, locale, n)),
    decreases n,
{
    if n > 0 {
        lemma_dependency_no_dead(sp, code, deps, cat, locale, (n - 1) as nat);
        let prev = dependency_issues_upto(sp, code, deps, cat, locale, (n - 1) as nat);
        let all = dependency_issues_upto(sp, code, deps, cat, locale, n);
        assert forall|k: int| 0 <= k < all.len() implies (#[trigger] all[k]).issue_type != AuditIssueType::DeadCode by {
            if k < prev.len() {
                assert(all[k] == prev[k]);
            }
        }
    }
}

proof fn lemma_symbol_more_uses(
    sp: SymbolView,
    codes: Seq<SymbolView>,
    used1: Seq<Seq<char>>,
    used2: Seq<Seq<char>>,
    cat: CatalogView,
    locale: Seq<char>,
)
    requires
        forall|x: Seq<char>| used1.contains(x) ==> used2.contains(x),
    ensures
        symbol_issues(sp, codes, used2, cat, locale) == without_used_dead_code(
            symbol_issues(sp, codes, used1, cat, locale),
            used2,
        ),
{
    match find_code(codes, sp.name) {
        None => {
            lemma_without_keeps(symbol_issues(sp, codes, used1, cat, locale), used2);
        },
        Some(code) => {
            if sp.kind != code.kind {
                lemma_without_keeps(symbol_issues(sp, codes, used1, cat, locale), used2);
            } else {
                match (sp.params, code.params) {
                    (Some(s), Some(c)) => {
                        if s.len() == c.len() {
                            lemma_param_type_no_dead(sp, code, s, c, cat, locale, s.len());
                        }
                    },
                    _ => {},
                }
                match sp.dependencies {
                    Some(deps) => lemma_dependency_no_dead(sp, code, deps, cat, locale, deps.len()),
                    None => {},
                }
                let p = param_issues(sp, code, cat, locale);
                let r = return_issues(sp, code, cat, locale);
                let t = type_issues(sp, code, cat, locale);
                let l = line_issues(sp, code, cat, locale);
                let d = dependency_issues(sp, code, cat, locale);
                lemma_no_dead_concat(p, r);
                lemma_no_dead_concat(t, l);
                lemma_no_dead_concat(t + l, d);
                let x1 = dead_code_issues(sp, code, used1, cat, locale);
                let x2 = dead_code_issues(sp, code, used2, cat, locale);
                lemma_without_concat(t + l + d, x1, used2);
                lemma_without_keeps(t + l + d, used2);
                if !used1.contains(sp.name) {
                    let w1 = without_used_dead_code(x1, used2);
                    assert(x1.drop_last() =~= Seq::<IssueView>::empty());
                    assert(without_used_dead_code(x1.drop_last(), used2) =~= Seq::<IssueView>::empty());
                    assert(x1.last().issue_type == AuditIssueType::DeadCode);
                    assert(x1.last().name == sp.name);
                    if used2.contains(sp.name) {
                        assert(w1 =~= Seq::<IssueView>::empty());
                        assert(x2 =~= Seq::<IssueView>::empty());
                    } else {
                        assert(w1 =~= seq![x1.last()]);
                        assert(x2 =~= x1);
                    }
                    assert(w1 =~= x2);
                } else {
                    assert(without_used_dead_code(x1, used2) =~= x2);
                }
            }
        },
    }
}

/// Law: naming more used identifiers only takes dead-code findings away:
/// the findings are those of fewer used names, less the dead-code findings
/// on names that are now used.
pub proof fn lemma_more_uses_only_remove_dead_code(
    specs: Seq<SymbolView>,
    codes: Seq<SymbolView>,
    used1: Seq<Seq<char>>,
    used2: Seq<Seq<char>>,
    cat: CatalogView,
    locale: Seq<char>,
)
    requires
        forall|x: Seq<char>| used1.contains(x) ==> used2.contains(x),
    ensures
        audit_issues(specs, codes, used2, cat, locale) == without_used_dead_code(
            audit_issues(specs, codes, used1, cat, locale),
            used2,
        ),
    decreases specs.len(),
{
    if specs.len() > 0 {
        lemma_more_uses_only_remove_dead_code(specs.drop_last(), codes, used1, used2, cat, locale);
        lemma_symbol_more_uses(specs.last(), codes, used1, used2, cat, locale);
        lemma_without_concat(
            audit_issues(specs.drop_last(), codes, used1, cat, locale),
            symbol_issues(specs.last(), codes, used1, cat, locale),
            used2,
        );
    }
}

/// Law: a declaration draws a dead-code finding exactly when the first
/// definition of its name in the code is of its kind and no used identifier
/// is its name; that finding names it and carries the lines of the
/// definition and no expected lines.
pub proof fn lemma_dead_code_exactly(
    sp: SymbolView,
    codes: Seq<SymbolView>,
    used: Seq<Seq<char>>,
    cat: CatalogView,
    locale: Seq<char>,
)
    ensures
        (exists|k: int|
            0 <= k < symbol_issues(sp, codes, used, cat, locale).len()
                && (#[trigger] symbol_issues(sp, codes, used, cat, locale)[k]).issue_type == AuditIssueType::DeadCode)
            <==> (find_code(codes, sp.name) matches Some(c) && c.kind == sp.kind && !used.contains(sp.name)),
        forall|k: int|
            0 <= k < symbol_issues(sp, codes, used, cat, locale).len()
                && (#[trigger] symbol_issues(sp, codes, used, cat, locale)[k]).issue_type == AuditIssueType::DeadCode
                ==> (find_code(codes, sp.name) matches Some(c)
                    && symbol_issues(sp, codes, used, cat, locale)[k].name == sp.name
                    && symbol_issues(sp, codes, used, cat, locale)[k].code_line_range == c.line_range
                    && symbol_issues(sp, codes, used, cat, locale)[k].expected_line_range is None),
{
    let all = symbol_issues(sp, codes, used, cat, locale);
    match find_code(codes, sp.name) {
        None => {
            assert(all.len() == 1 && all[0].issue_type == AuditIssueType::MissingInCode);
        },
        Some(code) => {
            if sp.kind != code.kind {
                assert(all.len() == 1 && all[0].issue_type == AuditIssueType::TypeMismatch);
            } else {
                match (sp.params, code.params) {
                    (Some(s), Some(c)) => {
                        if s.len() == c.len() {
                            lemma_param_type_no_dead(sp, code, s, c, cat, locale, s.len());
                        }
                    },
                    _ => {},
                }
                match sp.dependencies {
                    Some(deps) => lemma_dependency_no_dead(sp, code, deps, cat, locale, deps.len()),
                    None => {},
                }
                let p = param_issues(sp, code, cat, locale);
                let r = return_issues(sp, code, cat, locale);
                let t = type_issues(sp, code, cat, locale);
                let l = line_issues(sp, code, cat, locale);
                let d = dependency_issues(sp, code, cat, locale);
                let x = dead_code_issues(sp, code, used, cat, locale);
                lemma_no_dead_concat(p, r);
                lemma_no_dead_concat(t, l);
                lemma_no_dead_concat(t + l, d);
                let front = t + l + d;
                assert(all == front + x);
                assert forall|k: int| 0 <= k < all.len() && (#[trigger] all[k]).issue_type
                    == AuditIssueType::DeadCode implies k == front.len() && all[k] == x[0] by {
                    if k < front.len() {
                        assert(all[k] == front[k]);
                    } else {
                        assert(all[k] == x[k - front.len()]);
                    }
                }
                if !used.contains(sp.name) {
                    assert(all[front.len() as int] == x[0]);
                }
            }
        },
    }
}

/// The dead-code findings of an audit are only on names that no used
/// identifier is.
proof fn lemma_dead_names_unused(
    specs: Seq<SymbolView>,
    codes: Seq<SymbolView>,
    used: Seq<Seq<char>>,
    cat: CatalogView,
    locale: Seq<char>,
)
    ensures
        forall|k: int|
            0 <= k < audit_issues(specs, codes, used, cat, locale).len()
                && (#[trigger] audit_issues(specs, codes, used, cat, locale)[k]).issue_type == AuditIssueType::DeadCode
                ==> !used.contains(audit_issues(specs, codes, used, cat, locale)[k].name),
    decreases specs.len(),
{
    if specs.len() > 0 {
        lemma_dead_names_unused(specs.drop_last(), codes, used, cat, locale);
        lemma_dead_code_exactly(specs.last(), codes, used, cat, locale);
        let a = audit_issues(specs.drop_last(), codes, used, cat, locale);
        let b = symbol_issues(specs.last(), codes, used, cat, locale);
        assert forall|k: int| 0 <= k < (a + b).len() && (#[trigger] (a + b)[k]).issue_type
            == AuditIssueType::DeadCode implies !used.contains((a + b)[k].name) by {
            if k < a.len() {
                assert((a + b)[k] == a[k]);
            } else {
                assert((a + b)[k] == b[k - a.len()]);
                assert(b[k - a.len()].issue_type == AuditIssueType::DeadCode);
            }
        }
    }
}

/// Removing the dead-code findings on names that `u1` holds is removing those
/// on names that `u2` holds, where the two agree on every such finding.
proof fn lemma_without_agree(x: Seq<IssueView>, u1: Seq<Seq<char>>, u2: Seq<Seq<char>>)
    requires
        forall|k: int|
            0 <= k < x.len() && (#[trigger] x[k]).issue_type == AuditIssueType::DeadCode ==> (u1.contains(x[k].name)
                <==> u2.contains(x[k].name)),
    ensures
        without_used_dead_code(x, u1) == without_used_dead_code(x, u2),
    decreases x.len(),
{
    if x.len() > 0 {
        assert forall|k: int|
            0 <= k < x.drop_last().len() && (#[trigger] x.drop_last()[k]).issue_type == AuditIssueType::DeadCode
                implies (u1.contains(x.drop_last()[k].name) <==> u2.contains(x.drop_last()[k].name)) by {
            assert(x.drop_last()[k] == x[k]);
        }
        lemma_without_agree(x.drop_last(), u1, u2);
        assert(x.last() == x[x.len() - 1]);
    }
}

/// Law: adding the names `added` to the used names `used` takes away the
/// dead-code findings on names in `added`, and nothing else.
pub proof fn lemma_adding_used_names(
    specs: Seq<SymbolView>,
    codes: Seq<SymbolView>,
    used: Seq<Seq<char>>,
    added: Seq<Seq<char>>,
    cat: CatalogView,
    locale: Seq<char>,
)
    ensures
        audit_issues(specs, codes, used + added, cat, locale) == without_used_dead_code(
            audit_issues(specs, codes, used, cat, locale),
            added,
        ),
{
    let both = used + added;
    assert forall|x: Seq<char>| used.contains(x) implies both.contains(x) by {
        let i = choose|i: int| 0 <= i < used.len() && used[i] == x;
        assert(both[i] == x);
    }
    lemma_more_uses_only_remove_dead_code(specs, codes, used, both, cat, locale);
    lemma_dead_names_unused(specs, codes, used, cat, locale);
    let x = audit_issues(specs, codes, used, cat, locale);
    assert forall|k: int| 0 <= k < x.len() && (#[trigger] x[k]).issue_type == AuditIssueType::DeadCode implies (
    both.contains(x[k].name) <==> added.contains(x[k].name)) by {
        let n = x[k].name;
        if both.contains(n) {
            let i = choose|i: int| 0 <= i < both.len() && both[i] == n;
            if i < used.len() {
                assert(used[i] == n);
            } else {
                assert(added[i - used.len()] == n);
            }
        }
        if added.contains(n) {
            let i = choose|i: int| 0 <= i < added.len() && added[i] == n;
            assert(both[i + used.len()] == n);
        }
    }
    lemma_without_agree(x, both, added);
}

/// Each finding on one declaration is among the findings of the whole audit.
pub proof fn lemma_symbol_issue_in_audit(
    specs: Seq<SymbolView>,
    codes: Seq<SymbolView>,
    used: Seq<Seq<char>>,
    cat: CatalogView,
    locale: Seq<char>,
    j: int,
    k: int,
)
    requires
        0 <= j < specs.len(),
        0 <= k < symbol_issues(specs[j], codes, used, cat, locale).len(),
    ensures
        exists|m: int|
            0 <= m < audit_issues(specs, codes, used, cat, locale).len()
                && #[trigger] audit_issues(specs, codes, used, cat, locale)[m]
                == symbol_issues(specs[j], codes, used, cat, locale)[k],
    decreases specs.len(),
{
    let a = audit_issues(specs.drop_last(), codes, used, cat, locale);
    let b = symbol_issues(specs.last(), codes, used, cat, locale);
    assert(audit_issues(specs, codes, used, cat, locale) == a + b);
    if j == specs.len() - 1 {
        assert((a + b)[a.len() + k] == b[k]);
    } else {
        assert(specs.drop_last()[j] == specs[j]);
        lemma_symbol_issue_in_audit(specs.drop_last(), codes, used, cat, locale, j, k);
        let m = choose|m: int| 0 <= m < a.len() && #[trigger] a[m] == symbol_issues(specs[j], codes, used, cat, locale)[k];
        assert((a + b)[m] == a[m]);
    }
}

/// Law: a function declared with a non-empty return type `r`, whose first
/// definition in the code is a function with another return type (`()`
/// where the code writes none), draws a return-type finding: it names the
/// function, its message is the catalog's return-type template filled with
/// the name, `r` and the code's type, and it carries the definition's lines
/// and the declared ones.
pub proof fn lemma_return_type_mismatch_found(
    specs: Seq<SymbolView>,
    codes: Seq<SymbolView>,
    used: Seq<Seq<char>>,
    cat: CatalogView,
    locale: Seq<char>,
    j: int,
)
    requires
        0 <= j < specs.len(),
        specs[j].kind == SymbolKind::Function,
        find_code(codes, specs[j].name) matches Some(c) && c.kind == SymbolKind::Function,
        specs[j].return_type matches Some(r) && r.len() > 0 && r != match find_code(codes, specs[j].name)->0.return_type {
            Some(x) => x,
            None => "()"@,
        },
    ensures
        exists|m: int|
            0 <= m < audit_issues(specs, codes, used, cat, locale).len() && ({
                let i = #[trigger] audit_issues(specs, codes, used, cat, locale)[m];
                let c = find_code(codes, specs[j].name)->0;
                let code_type = match c.return_type {
                    Some(x) => x,
                    None => "()"@,
                };
                &&& i.issue_type == AuditIssueType::ReturnTypeMismatch
                &&& i.name == specs[j].name
                &&& i.message == crate::i18n::render(
                    cat,
                    locale,
                    "return_type_mismatch"@,
                    seq![specs[j].name, specs[j].return_type->0, code_type],
                )
                &&& i.code_line_range == c.line_range
                &&& i.expected_line_range == specs[j].line_range
            }),
{
    let sp = specs[j];
    let code = find_code(codes, sp.name)->0;
    let p = param_issues(sp, code, cat, locale);
    let r = return_issues(sp, code, cat, locale);
    let t = type_issues(sp, code, cat, locale);
    let l = line_issues(sp, code, cat, locale);
    let d = dependency_issues(sp, code, cat, locale);
    let x = dead_code_issues(sp, code, used, cat, locale);
    let all = symbol_issues(sp, codes, used, cat, locale);
    assert(t == p + r);
    assert(all == t + l + d + x);
    assert(r.len() == 1);
    assert(all[p.len() as int] == r[0]) by {
        assert((t + l + d + x)[p.len() as int] == t[p.len() as int]);
        assert((p + r)[p.len() as int] == r[0]);
    }
    lemma_symbol_issue_in_audit(specs, codes, used, cat, locale, j, p.len() as int);
}

/// No finding of `issues` is of kind `t`.
pub open spec fn none_of_kind(issues: Seq<IssueView>, t: AuditIssueType) -> bool {
    forall|k: int| 0 <= k < issues.len() ==> (#[trigger] issues[k]).issue_type != t
}

proof fn lemma_none_of_kind_concat(a: Seq<IssueView>, b: Seq<IssueView>, t: AuditIssueType)
    requires
        none_of_kind(a, t),
        none_of_kind(b, t),
    ensures
        none_of_kind(a + b, t),
{
    assert forall|k: int| 0 <= k < (a + b).len() implies (#[trigger] (a + b)[k]).issue_type != t by {
        if k < a.len() {
            assert((a + b)[k] == a[k]);
        } else {
            assert((a + b)[k] == b[k - a.len()]);
        }
    }
}

proof fn lemma_param_type_kinds(
    sp: SymbolView,
    code: SymbolView,
    s: Seq<(Seq<char>, Seq<char>)>,
    c: Seq<(Seq<char>, Seq<char>)>,
    cat: CatalogView,
    locale: Seq<char>,
    n: nat,
)
    ensures
        forall|k: int|
            0 <= k < param_type_issues(sp, code, s, c, cat, locale, n).len() ==> (#[trigger] param_type_issues(
                sp,
                code,
                s,
                c,
                cat,
                locale,
                n,
            )[k]).issue_type == AuditIssueType::TypeMismatch,
    decreases n,
{
    if n > 0 {
        lemma_param_type_kinds(sp, code, s, c, cat, locale, (n - 1) as nat);
        let prev = param_type_issues(sp, code, s, c, cat, locale, (n - 1) as nat);
        let all = param_type_issues(sp, code, s, c, cat, locale, n);
        assert forall|k: int| 0 <= k < all.len() implies (#[trigger] all[k]).issue_type
            == AuditIssueType::TypeMismatch by {
            if k < prev.len() {
                assert(all[k] == prev[k]);
            }
        }
    }
}

proof fn lemma_dependency_kinds(
    sp: SymbolView,
    code: SymbolView,
    deps: Seq<Seq<char>>,
    cat: CatalogView,
    locale: Seq<char>,
    n: nat,
)
    ensures
        forall|k: int|
            0 <= k < dependency_issues_upto(sp, code, deps, cat, locale, n).len() ==> (
            #[trigger] dependency_issues_upto(sp, code, deps, cat, locale, n)[k]).issue_type
                == AuditIssueType::DependencyNotUsed,
    decreases n,
{
    if n > 0 {
        lemma_dependency_kinds(sp, code, deps, cat, locale, (n - 1) as nat);
        let prev = dependency_issues_upto(sp, code, deps, cat, locale, (n - 1) as nat);
        let all = dependency_issues_upto(sp, code, deps, cat, locale, n);
        assert forall|k: int| 0 <= k < all.len() implies (#[trigger] all[k]).issue_type
            == AuditIssueType::DependencyNotUsed by {
            if k < prev.len() {
                assert(all[k] == prev[k]);
            }
        }
    }
}

/// Law: a declaration draws a return-type finding exactly when it declares
/// a function with a non-empty return type, the first definition of its
/// name in the code is a function, and the code's return type (`()` where
/// the code writes none) differs from the declared one.
pub proof fn lemma_return_type_finding_exactly(
    sp: SymbolView,
    codes: Seq<SymbolView>,
    used: Seq<Seq<char>>,
    cat: CatalogView,
    locale: Seq<char>,
)
    ensures
        (exists|k: int|
            0 <= k < symbol_issues(sp, codes, used, cat, locale).len()
                && (#[trigger] symbol_issues(sp, codes, used, cat, locale)[k]).issue_type
                == AuditIssueType::ReturnTypeMismatch) <==> ({
            &&& sp.kind == SymbolKind::Function
            &&& find_code(codes, sp.name) matches Some(c)
            &&& c.kind == SymbolKind::Function
            &&& sp.return_type matches Some(r)
            &&& r.len() > 0
            &&& r != match c.return_type {
                Some(x) => x,
                None => "()"@,
            }
        }),
{
    let all = symbol_issues(sp, codes, used, cat, locale);
    let rt = AuditIssueType::ReturnTypeMismatch;
    match find_code(codes, sp.name) {
        None => {
            assert(all.len() == 1 && all[0].issue_type == AuditIssueType::MissingInCode);
        },
        Some(code) => {
            if sp.kind != code.kind {
                assert(all.len() == 1 && all[0].issue_type == AuditIssueType::TypeMismatch);
            } else {
                let p = param_issues(sp, code, cat, locale);
                let r = return_issues(sp, code, cat, locale);
                let v = var_type_issues(sp, code, cat, locale);
                let t = type_issues(sp, code, cat, locale);
                let l = line_issues(sp, code, cat, locale);
                let d = dependency_issues(sp, code, cat, locale);
                let x = dead_code_issues(sp, code, used, cat, locale);
                match (sp.params, code.params) {
                    (Some(sps), Some(cps)) => {
                        if sps.len() == cps.len() {
                            lemma_param_type_kinds(sp, code, sps, cps, cat, locale, sps.len());
                        }
                    },
                    _ => {},
                }
                match sp.dependencies {
                    Some(deps) => lemma_dependency_kinds(sp, code, deps, cat, locale, deps.len()),
                    None => {},
                }
                assert(none_of_kind(p, rt));
                assert(none_of_kind(v, rt));
                assert(none_of_kind(l, rt));
                assert(none_of_kind(d, rt));
                assert(none_of_kind(x, rt));
                lemma_none_of_kind_concat(l, d, rt);
                lemma_none_of_kind_concat(l + d, x, rt);
                let tail = l + d + x;
                assert(all =~= t + tail);
                if sp.kind == SymbolKind::Function {
                    assert(t == p + r);
                    if r.len() > 0 {
                        assert(all[p.len() as int] == r[0]) by {
                            assert((t + tail)[p.len() as int] == t[p.len() as int]);
                            assert((p + r)[p.len() as int] == r[0]);
                        }
                    } else {
                        assert(r =~= Seq::<IssueView>::empty());
                        assert(t =~= p);
                        lemma_none_of_kind_concat(p, tail, rt);
                    }
                } else {
                    assert(t == v);
                    lemma_none_of_kind_concat(v, tail, rt);
                }
            }
        },
    }
}

} // verus!
